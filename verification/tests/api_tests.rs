use wallet_api::api::{
    acm_endpoint, bad_request, echoes, internal_error, route, session_uid, split_token,
    token_uid_parses, user_query_id, user_query_params, wallet_query_id, wallet_query_params, Api,
    MessageKind,
};

#[test]
fn routing() {
    assert_eq!(route(Some("user.query")).unwrap(), Api::UserQuery);
    assert_eq!(route(Some("wallet.queryById")).unwrap(), Api::WalletQueryById);
    let e = route(Some("x")).unwrap_err();
    assert_eq!((e.status, e.message.as_str()), (400, "api not found"));
    let e = route(None).unwrap_err();
    assert_eq!((e.status, e.message.as_str()), (400, "method is required"));
}

#[test]
fn required_parameters() {
    assert_eq!(user_query_params(Some("{}".into())).unwrap(), "{}");
    let e = user_query_params(None).unwrap_err();
    assert_eq!((e.status, e.message.as_str()), (400, "params is required"));
    let e = wallet_query_params(None).unwrap_err();
    assert_eq!((e.status, e.message.as_str()), (400, "method is required"));
    assert_eq!(user_query_id(Some(3)).unwrap(), 3);
    let e = user_query_id(None).unwrap_err();
    assert_eq!((e.status, e.message.as_str()), (400, "id is required"));
    assert_eq!(wallet_query_id(Some(4)).unwrap(), 4);
    let e = wallet_query_id(None).unwrap_err();
    assert_eq!((e.status, e.message.as_str()), (400, "wid is required"));
    let e = internal_error("boom".into());
    assert_eq!((e.status, e.message.as_str()), (500, "boom"));
    assert_eq!(bad_request("x").status, 400);
}

#[test]
fn session_tokens() {
    assert_eq!(split_token("12:abc").unwrap(), ("12".to_string(), "abc".to_string()));
    let e = split_token("12").unwrap_err();
    assert_eq!((e.status, e.message.as_str()), (400, "Invalid token"));
    assert!(split_token("1:2:3").is_err());
    assert_eq!(session_uid("12:abc").unwrap(), 12);
    assert!(session_uid("a:b:c").is_err());
    assert!(token_uid_parses("12:x"));
    assert!(!token_uid_parses("x:y"));
    assert!(token_uid_parses("xy"));
}

#[test]
fn websocket_echo_kinds() {
    assert!(echoes(MessageKind::Text));
    assert!(echoes(MessageKind::Binary));
    assert!(!echoes(MessageKind::Ping));
    assert!(!echoes(MessageKind::Close));
}

#[test]
fn default_endpoint() {
    assert_eq!(acm_endpoint(None), "acm.aliyun.com");
    assert_eq!(acm_endpoint(Some("x".into())), "x");
}
