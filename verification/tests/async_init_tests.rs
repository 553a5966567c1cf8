use wallet_api::async_init::{inner_fn_name, result_type, value_name, Memo};

#[test]
fn generated_names() {
    assert_eq!(value_name("get_db_pool"), "GET_DB_POOL_VALUE");
    assert_eq!(inner_fn_name("get_db_pool"), "get_db_pool_orignal_fn");
}

#[test]
fn result_type_from_return_type_text() {
    assert_eq!(
        result_type("-> Result < MySqlPool , sqlx :: Error >").unwrap(),
        "MySqlPool "
    );
    assert_eq!(
        result_type("-> Result<usize, Box<dyn std::error::Error>>").unwrap(),
        "usize"
    );
    assert_eq!(
        result_type("-> Option<u8>").unwrap_err(),
        "Can not extra result type from -> Option<u8>"
    );
}

#[test]
fn memo_keeps_first_value() {
    let mut m: Memo<u32> = Memo::new();
    assert_eq!(m.get(), None);
    m.fill(5);
    assert_eq!(m.get(), Some(&5));
    assert_eq!(m.get(), Some(&5));
}

#[test]
fn calls_run_until_first_success_then_answer_it() {
    let mut m: Memo<u32> = Memo::new();
    assert!(m.needs_run());
    assert_eq!(m.record::<&str>(Err("down")), Err("down"));
    assert!(m.needs_run());
    assert_eq!(m.record::<&str>(Ok(10)), Ok(()));
    assert!(!m.needs_run());
    assert_eq!(m.get(), Some(&10));
    assert_eq!(value_name("test_volt"), "TEST_VOLT_VALUE");
}

#[test]
fn record_after_a_value_replaces_it() {
    let mut m: Memo<u32> = Memo::new();
    assert_eq!(m.record::<&str>(Ok(1)), Ok(()));
    assert_eq!(m.record::<&str>(Ok(2)), Ok(()));
    assert_eq!(m.get(), Some(&2));
    assert_eq!(m.record::<&str>(Err("late")), Err("late"));
    assert_eq!(m.get(), Some(&2));
}
