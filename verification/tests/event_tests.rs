use sha2::Digest;
use nwt_auth::{Method, NwtContent, NwtEvent};

fn sample_event() -> NwtEvent {
    NwtEvent {
        id: "00".to_string(),
        pubkey: "abc".to_string(),
        created_at: 1700000000,
        kind: 27235,
        tags: vec![
            vec!["u".to_string(), "x".to_string()],
            vec!["method".to_string(), "GET".to_string()],
        ],
        content: NwtContent {
            method: Method::Get,
            uri: "http://localhost:8000/call/alice/search?tag=a".to_string(),
        },
        sig: "11".to_string(),
        username: "alice".to_string(),
    }
}

#[test]
fn serialize_event_canonical_form() {
    let e = sample_event();
    assert_eq!(
        e.serialize_event(),
        r#"[0,"abc",1700000000,27235,[["u","x"],["method","GET"]],"{\"method\":\"GET\",\"uri\":\"http://localhost:8000/call/alice/search?tag=a\"}"]"#
    );
}

#[test]
fn serialize_event_empty_tags_and_zero_numbers() {
    let mut e = sample_event();
    e.tags = vec![];
    e.created_at = 0;
    e.kind = 0;
    e.content.method = Method::Post;
    e.content.uri = "u".to_string();
    assert_eq!(
        e.serialize_event(),
        r#"[0,"abc",0,0,[],"{\"method\":\"POST\",\"uri\":\"u\"}"]"#
    );
}

#[test]
fn serialize_event_collapses_comma_space_everywhere() {
    let mut e = sample_event();
    e.pubkey = "a, b".to_string();
    e.tags = vec![vec!["x, y".to_string()], vec![]];
    e.content.uri = "p, q".to_string();
    assert_eq!(
        e.serialize_event(),
        r#"[0,"a,b",1700000000,27235,[["x,y"],[]],"{\"method\":\"GET\",\"uri\":\"p,q\"}"]"#
    );
}

#[test]
fn serialize_event_escapes_quotes_twice() {
    let mut e = sample_event();
    e.tags = vec![];
    e.content.uri = "x\"y".to_string();
    assert_eq!(
        e.serialize_event(),
        r#"[0,"abc",1700000000,27235,[],"{\"method\":\"GET\",\"uri\":\"x\\\"y\"}"]"#
    );
}

#[test]
fn content_to_json_escapes_like_serde_json() {
    let c = NwtContent { method: Method::Get, uri: "a\u{1}\t\"\\b\u{7f}é\u{1f}".to_string() };
    assert_eq!(c.to_json(), "{\"method\":\"GET\",\"uri\":\"a\\u0001\\t\\\"\\\\b\u{7f}é\\u001f\"}");
}

#[test]
fn content_to_json_is_compact_object() {
    let c = NwtContent { method: Method::Delete, uri: "/a?b=c".to_string() };
    assert_eq!(c.to_json(), r#"{"method":"DELETE","uri":"/a?b=c"}"#);
}

#[test]
fn generate_id_is_sha256_of_serialization() {
    let e = sample_event();
    let expected = data_encoding::HEXLOWER.encode(&sha2::Sha256::digest(e.serialize_event().as_bytes()));
    assert_eq!(e.generate_id(), expected);
    assert_eq!(e.generate_id().len(), 64);
}

#[test]
fn generate_id_ignores_username() {
    let a = sample_event();
    let mut b = sample_event();
    b.username = "someone else".to_string();
    assert_eq!(a.generate_id(), b.generate_id());
}

#[test]
fn method_names_round_trip() {
    let all = [
        Method::Get, Method::Put, Method::Post, Method::Delete, Method::Options,
        Method::Head, Method::Trace, Method::Connect, Method::Patch,
    ];
    for m in all {
        assert_eq!(Method::from_name(m.as_str()), Some(m));
        assert_eq!(m.debug_str(), format!("{:?}", m));
    }
}

#[test]
fn method_from_name_ignores_ascii_case() {
    assert_eq!(Method::from_name("get"), Some(Method::Get));
    assert_eq!(Method::from_name("GeT"), Some(Method::Get));
    assert_eq!(Method::from_name("pAtCh"), Some(Method::Patch));
    assert_eq!(Method::from_name("GETS"), None);
    assert_eq!(Method::from_name(""), None);
    assert_eq!(Method::from_name("FETCH"), None);
}

#[test]
fn push_debug_matches_derived_debug() {
    let mut e = sample_event();
    e.username = "al\"ice\n".to_string();
    let mut out = String::from(">");
    e.push_debug(&mut out);
    assert_eq!(out, format!(">{:?}", e));
}
