use crypto::digest::Digest;
use crypto::mac::Mac;
use wallet_api::acm::{
    changed_config_step, changed_keys, config_url, content_is_not_exist, initial_config_step,
    lookup_param, parse_server_list, probe_update, sign_text, AcmClient, HttpMethod, InnerClient,
    LINE_SEPARATOR, WORD_SEPARATOR,
};
use wallet_api::keyed::KeyedList;

fn pairs(v: &[(&str, &str)]) -> Vec<(String, String)> {
    v.iter().map(|(a, b)| (a.to_string(), b.to_string())).collect()
}

fn md5_of(s: &str) -> String {
    let mut m = crypto::md5::Md5::new();
    m.input(s.as_bytes());
    m.result_str()
}

fn client() -> InnerClient {
    InnerClient::new("tenant1".to_string(), "ak".to_string(), "secret".to_string(), "acm.example.com".to_string())
}

#[test]
fn urls_of_the_service() {
    assert_eq!(config_url("10.0.0.1"), "http://10.0.0.1:8080/diamond-server/config.do");
    let mut c = client();
    assert_eq!(c.begin_get_server(), "http://acm.example.com:8080/diamond-server/diamond");
    assert_eq!(c.index, 1);
}

#[test]
fn server_list_keeps_non_blank_lines() {
    assert_eq!(parse_server_list("a.b\n\n  \n c \n"), vec!["a.b".to_string(), " c ".to_string()]);
    assert!(parse_server_list(" \n\n").is_empty());
    let mut c = client();
    let first = c.record_server_list(vec!["s1".to_string(), "s2".to_string()]);
    assert_eq!(first, "s1");
    assert_eq!(c.server_list, Some(vec!["s1".to_string(), "s2".to_string()]));
}

#[test]
fn config_requests() {
    let c = client();
    let r = c.get_config_request("s1", "acm_test", "DEFAULT_GROUP");
    assert_eq!(r.url, "http://s1:8080/diamond-server/config.do");
    assert_eq!(r.method, None);
    assert_eq!(r.params, pairs(&[("dataId", "acm_test"), ("group", "DEFAULT_GROUP"), ("tenant", "tenant1")]));
    assert_eq!(r.headers, None);
    let p = c.poll_config_request("s1", "probe");
    assert_eq!(p.method, Some("post".to_string()));
    assert_eq!(p.params, pairs(&[("Probe-Modify-Request", "probe")]));
    assert_eq!(p.headers, Some(pairs(&[("longPullingTimeout", "30000")])));
}

#[test]
fn sign_text_uses_tenant_and_group() {
    assert_eq!(sign_text(&pairs(&[("group", "g"), ("tenant", "t")]), 5), "t+g+5");
    assert_eq!(sign_text(&pairs(&[("group", "g")]), 5), "g+5");
    assert_eq!(sign_text(&pairs(&[("tenant", "t")]), -5), "t+-5");
    assert_eq!(sign_text(&pairs(&[("dataId", "d")]), 0), "+0");
    assert_eq!(lookup_param(&pairs(&[("a", "1"), ("a", "2")]), "a"), Some(&"1".to_string()));
}

#[test]
fn signed_requests_carry_the_signature() {
    let c = client();
    let req = c.get_config_request("s1", "acm_test", "DEFAULT_GROUP");
    let signed = c.sign_request(req, 1600000000000);
    let mut mac = crypto::hmac::Hmac::new(crypto::sha1::Sha1::new(), b"secret");
    mac.input(b"tenant1+DEFAULT_GROUP+1600000000000");
    let sig = base64::encode(mac.result().code());
    assert_eq!(signed.method, HttpMethod::Get);
    assert_eq!(signed.timestamp, 1600000000000);
    assert_eq!(
        signed.headers,
        pairs(&[
            ("Client-Version", "0.1"),
            ("Content-Type", "application/x-www-form-urlencoded; charset=GBK"),
            ("Spas-AccessKey", "ak"),
            ("timeStamp", "1600000000000"),
            ("exConfigInfo", "true"),
            ("Spas-Signature", sig.as_str()),
        ])
    );
    let poll = c.sign_request(c.poll_config_request("s1", "x"), 7);
    assert_eq!(poll.method, HttpMethod::Post);
    assert_eq!(poll.headers.last().unwrap(), &("longPullingTimeout".to_string(), "30000".to_string()));
    let now = c.request(c.get_config_request("s1", "d", "g"));
    assert_eq!(now.headers[3].1, now.timestamp.to_string());
}

#[test]
fn hmac_known_vector_through_signing() {
    let c = InnerClient::new("t".to_string(), "ak".to_string(), "key".to_string(), "e".to_string());
    let signed = c.sign_request(c.get_config_request("s", "d", "g"), 1);
    let mut mac = crypto::hmac::Hmac::new(crypto::sha1::Sha1::new(), b"key");
    mac.input(b"t+g+1");
    let expected = base64::encode(mac.result().code());
    assert_eq!(signed.headers[5].1, expected);
    assert_ne!(signed.headers[5].1, "t+g+1");
}

#[test]
fn subscribing_registers_sinks_and_starts_listener_once() {
    let mut acm: AcmClient<u32> = AcmClient::new("t".into(), "a".into(), "s".into(), "e".into());
    let (s1, start1) = acm.subscribe("d", "g", 1, "rx1");
    let (s2, start2) = acm.subscribe("d", "g", 2, "rx2");
    let (_s3, start3) = acm.subscribe("d2", "g", 3, "rx3");
    assert!(start1 && !start2 && !start3);
    assert_eq!((s1.data_id.as_str(), s1.group_id.as_str(), s1.inner), ("d", "g", "rx1"));
    assert_eq!(s2.inner, "rx2");
    assert_eq!(acm.sinks("d", "g"), Some(&vec![1, 2]));
    assert_eq!(acm.sinks("d2", "g"), Some(&vec![3]));
    assert_eq!(acm.sinks("x", "g"), None);
    let pending = acm.take_pending();
    assert_eq!(pending, pairs(&[("d", "g"), ("d", "g"), ("d2", "g")]));
    assert!(acm.take_pending().is_empty());
    AcmClient::<u32>::unsubscribe();
}

#[test]
fn first_reads_record_digests_or_requeue() {
    let mut acm: AcmClient<u32> = AcmClient::new("t".into(), "a".into(), "s".into(), "e".into());
    let mut table: KeyedList<String> = KeyedList::new();
    initial_config_step(&mut acm, &mut table, ("d".into(), "g".into()), Some("hello".into()));
    initial_config_step(&mut acm, &mut table, ("n".into(), "g".into()), Some(" config data not exist\n".into()));
    initial_config_step(&mut acm, &mut table, ("e".into(), "g".into()), None);
    assert_eq!(table.get("d", "g"), Some(&"5d41402abc4b2a76b9719d911017c592".to_string()));
    assert_eq!(table.get("n", "g"), None);
    assert_eq!(acm.take_pending(), pairs(&[("e", "g")]));
    assert!(content_is_not_exist("config data not exist  "));
}

#[test]
fn probe_lists_known_digests() {
    let mut acm: AcmClient<u32> = AcmClient::new("t".into(), "a".into(), "s".into(), "e".into());
    let mut table: KeyedList<String> = KeyedList::new();
    initial_config_step(&mut acm, &mut table, ("d".into(), "g".into()), Some("hello".into()));
    initial_config_step(&mut acm, &mut table, ("d2".into(), "g".into()), Some("bye".into()));
    let probe = probe_update(&table, "ten");
    let expected = format!(
        "d\u{2}g\u{2}{}\u{2}ten\u{1}d2\u{2}g\u{2}{}\u{2}ten\u{1}",
        md5_of("hello"),
        md5_of("bye")
    );
    assert_eq!(probe, expected);
    assert_eq!(probe_update(&KeyedList::new(), "ten"), "");
    assert_eq!(WORD_SEPARATOR, 2 as char);
    assert_eq!(LINE_SEPARATOR, 1 as char);
    let back = changed_keys(&probe).unwrap();
    assert_eq!(back, pairs(&[("d", "g"), ("d2", "g")]));
}

#[test]
fn change_notices_name_keys() {
    let notice = "acm_test%02DEFAULT_GROUP%02d708d81f-0bc8-4914-b461-8ba64da6c564%01\n";
    assert_eq!(changed_keys(notice), Some(pairs(&[("acm_test", "DEFAULT_GROUP")])));
    assert_eq!(changed_keys(""), Some(vec![]));
    assert_eq!(changed_keys("onlyone%01a%02b"), Some(pairs(&[("a", "b")])));
    assert_eq!(changed_keys("%FF"), None);
    assert_eq!(changed_keys("%4"), Some(vec![]));
}

#[test]
fn changes_are_passed_on_once() {
    let mut acm: AcmClient<u32> = AcmClient::new("t".into(), "a".into(), "s".into(), "e".into());
    let mut table: KeyedList<String> = KeyedList::new();
    initial_config_step(&mut acm, &mut table, ("d".into(), "g".into()), Some("v1".into()));
    assert_eq!(changed_config_step(&mut table, ("d".into(), "g".into()), "v1"), None);
    assert_eq!(changed_config_step(&mut table, ("d".into(), "g".into()), "v2"), Some("v2".to_string()));
    assert_eq!(table.get("d", "g"), Some(&md5_of("v2")));
    assert_eq!(changed_config_step(&mut table, ("d".into(), "g".into()), "v2"), None);
    assert_eq!(changed_config_step(&mut table, ("d".into(), "g".into()), "config data not exist"), None);
    assert_eq!(changed_config_step(&mut table, ("x".into(), "g".into()), "config data not exist"), None);
}
