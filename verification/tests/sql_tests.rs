use wallet_api::model::{User, Utxo, Wallet, WalletParty};
use wallet_api::sql::{join_strings, sql_value, where_clause, BaseModel, QueryValue};

#[test]
fn table_names() {
    assert_eq!(User::get_table_name(), "user");
    assert_eq!(Utxo::get_table_name(), "utxo");
    assert_eq!(Wallet::get_table_name(), "wallet");
    assert_eq!(WalletParty::get_table_name(), "wallet_party");
}

#[test]
fn sql_values_quote_strings_and_write_numbers() {
    assert_eq!(sql_value(&QueryValue::string("O'Brien".to_string())), Some("'O''Brien'".to_string()));
    assert_eq!(sql_value(&QueryValue::u8(7)), Some("7".to_string()));
    assert_eq!(sql_value(&QueryValue::u64(18446744073709551615)), Some("18446744073709551615".to_string()));
    assert_eq!(sql_value(&QueryValue::arr(Box::new(vec![QueryValue::u8(1)]))), None);
    assert_eq!(User::get_sql_value(&QueryValue::string("x".to_string())), Some("'x'".to_string()));
}

#[test]
fn where_clauses() {
    assert_eq!(where_clause("id", &QueryValue::u64(3)), "id = 3");
    let list = QueryValue::arr(Box::new(vec![QueryValue::u8(1), QueryValue::string("a".to_string())]));
    assert_eq!(where_clause("status", &list), "status in ( 1,'a' )");
    let empty = QueryValue::arr(Box::new(vec![]));
    assert_eq!(where_clause("status", &empty), "status in (  )");
    assert_eq!(join_strings(&vec!["a".to_string(), "b".to_string(), "c".to_string()], ", "), "a, b, c");
}

#[test]
fn select_statements() {
    assert_eq!(User::fetch_by_id_sql(7), "SELECT * FROM user WHERE id = 7 LIMIT 1;");
    assert_eq!(Wallet::fetch_by_id_sql(0), "SELECT * FROM wallet WHERE id = 0 LIMIT 1;");
    assert_eq!(Wallet::fetch_one_sql(None), "SELECT * FROM wallet LIMIT 1;");
    assert_eq!(Wallet::fetch_all_sql(vec![]), "SELECT * FROM wallet;");
    assert_eq!(
        User::fetch_all_sql(vec![
            ("id".to_string(), QueryValue::u64(1)),
            ("email".to_string(), QueryValue::string("e".to_string())),
        ]),
        "SELECT * FROM user WHERE (id = 1) AND (email = 'e');"
    );
    assert_eq!(User::query_by_email_sql("a'b@x.io"), "SELECT * FROM user WHERE email = 'a''b@x.io' LIMIT 1;");
    assert_eq!(Utxo::query_sql(3), "SELECT * FROM utxo WHERE (wid = 3) AND (status in ( 1,2 ));");
}

#[test]
fn fetch_one_is_fetch_all_limited() {
    let all = User::fetch_all_sql(vec![("id".to_string(), QueryValue::u64(9))]);
    let one = User::fetch_one_sql(Some(vec![("id".to_string(), QueryValue::u64(9))]));
    assert_eq!(one, format!("{} LIMIT 1;", &all[..all.len() - 1]));
}

#[test]
fn wallet_party_statements() {
    let q = WalletParty::query_statement(5, 6);
    assert_eq!(q.sql, "select * from wallet_party where uid = ? & wid = ? limit 1");
    assert_eq!(q.binds, vec![5, 6]);
    assert_eq!(WalletParty::query_list_sql(5, None), "select * from wallet_party where uid = 5");
    assert_eq!(WalletParty::query_list_sql(5, Some(2)), "select * from wallet_party where uid = 5 and type = 2");
}

#[test]
fn quoted_values_read_back() {
    for v in ["", "plain", "it's", "''", "a'b'c'"] {
        let q = sql_value(&QueryValue::string(v.to_string())).unwrap();
        assert!(q.starts_with('\'') && q.ends_with('\'') && q.len() >= 2);
        let body = &q[1..q.len() - 1];
        assert_eq!(body.replace("''", "'"), v);
    }
}
