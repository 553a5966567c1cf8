use wallet_api::model::User;
use wallet_api::service::{lookup_step, user_cache_key, LookupAction, LookupEvent, USER_CACHE_TTL_SECS};

#[test]
fn cache_keys() {
    assert_eq!(user_cache_key(42), "user_id_42");
    assert_ne!(user_cache_key(1), user_cache_key(11));
    assert_eq!(USER_CACHE_TTL_SECS, 60 * 30);
}

#[test]
fn lookup_reads_cache_before_database() {
    match lookup_step(7, LookupEvent::Start) {
        LookupAction::ListWallets(sql) => assert_eq!(sql, "select * from wallet_party where uid = 7"),
        other => panic!("{:?}", other),
    }
    match lookup_step(7, LookupEvent::WalletsListed) {
        LookupAction::ReadCache(key) => assert_eq!(key, "user_id_7"),
        other => panic!("{:?}", other),
    }
    match lookup_step(7, LookupEvent::Cached(Some(User { id: 7, email: None }))) {
        LookupAction::Return(Some(u)) => assert_eq!(u.id, 7),
        other => panic!("{:?}", other),
    }
    match lookup_step(7, LookupEvent::Cached(None)) {
        LookupAction::QueryDb(sql) => assert_eq!(sql, "SELECT * FROM user WHERE id = 7 LIMIT 1;"),
        other => panic!("{:?}", other),
    }
    match lookup_step(7, LookupEvent::Fetched(Some(User { id: 7, email: Some("a@b".into()) }))) {
        LookupAction::CacheAndReturn { key, ttl_secs, user } => {
            assert_eq!(key, "user_id_7");
            assert_eq!(ttl_secs, 1800);
            assert_eq!(user.email.as_deref(), Some("a@b"));
        }
        other => panic!("{:?}", other),
    }
    match lookup_step(7, LookupEvent::Fetched(None)) {
        LookupAction::Return(None) => {}
        other => panic!("{:?}", other),
    }
}
