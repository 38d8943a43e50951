use nwt_auth::{
    assign_username, authorize_event, check_nwt_permissions, decode_nwt, nwt_from_header,
    validate_nwt, Method, NwtContent, NwtError, NwtEvent,
};

fn unsigned_event(uri: &str, method: Method) -> NwtEvent {
    NwtEvent {
        id: String::new(),
        pubkey: String::new(),
        created_at: 1700000000,
        kind: 27235,
        tags: vec![vec!["t".to_string(), "v".to_string()]],
        content: NwtContent { method, uri: uri.to_string() },
        sig: String::new(),
        username: String::new(),
    }
}

fn sign(e: &mut NwtEvent, secret: u8) {
    let secp = secp256k1::Secp256k1::new();
    let kp = secp256k1::KeyPair::from_seckey_slice(&secp, &[secret; 32]).unwrap();
    let (xpk, _) = kp.x_only_public_key();
    e.pubkey = data_encoding::HEXLOWER.encode(&xpk.serialize());
    e.id = e.generate_id();
    let id_bytes = data_encoding::HEXLOWER.decode(e.id.as_bytes()).unwrap();
    let msg = secp256k1::Message::from_slice(&id_bytes).unwrap();
    let sig = secp.sign_schnorr_no_aux_rand(&msg, &kp);
    let sig_bytes: &[u8; 64] = sig.as_ref();
    e.sig = data_encoding::HEXLOWER.encode(sig_bytes);
}

const URI: &str = "http://localhost:8000/call/alice/search?tag=a";

fn signed_event() -> NwtEvent {
    let mut e = unsigned_event(URI, Method::Get);
    sign(&mut e, 0x11);
    e
}

#[test]
fn header_missing_is_missing() {
    assert_eq!(nwt_from_header(None), Err(NwtError::Missing));
}

#[test]
fn header_without_bearer_is_missing() {
    assert_eq!(nwt_from_header(Some("Basic abc")), Err(NwtError::Missing));
    assert_eq!(nwt_from_header(Some("bearer abc")), Err(NwtError::Missing));
    assert_eq!(nwt_from_header(Some("Bearer")), Err(NwtError::Missing));
}

#[test]
fn header_token_strips_every_leading_prefix() {
    assert_eq!(nwt_from_header(Some("Bearer abc")), Ok("abc".to_string()));
    assert_eq!(nwt_from_header(Some("Bearer Bearer abc")), Ok("abc".to_string()));
    assert_eq!(nwt_from_header(Some("Bearer ")), Ok(String::new()));
    assert_eq!(nwt_from_header(Some("Bearer a Bearer b")), Ok("a Bearer b".to_string()));
}

#[test]
fn decode_nwt_reads_base64url_json() {
    let token = base64_url::encode(r#"{"a":"é"}"#);
    assert_eq!(decode_nwt(token), Ok(r#"{"a":"é"}"#.to_string()));
    assert_eq!(decode_nwt("YQ".to_string()), Ok("a".to_string()));
    assert_eq!(decode_nwt(String::new()), Ok(String::new()));
}

#[test]
fn decode_nwt_refuses_bad_base64() {
    assert_eq!(decode_nwt("!!!!".to_string()), Err(NwtError::Invalid));
    assert_eq!(decode_nwt("YQ==".to_string()), Err(NwtError::Invalid));
    assert_eq!(decode_nwt("Y".to_string()), Err(NwtError::Invalid));
}

#[test]
fn decode_nwt_refuses_bytes_that_are_not_utf8() {
    let token = base64_url::encode(&[0xffu8, 0xfe, 0x41]);
    assert_eq!(decode_nwt(token), Err(NwtError::Invalid));
}

fn registry() -> Vec<(String, String)> {
    vec![
        ("alice".to_string(), "pk1".to_string()),
        ("bob".to_string(), "pk2".to_string()),
        ("carol".to_string(), "pk1".to_string()),
        ("".to_string(), "pk3".to_string()),
    ]
}

#[test]
fn assign_username_runs_matching_names_together() {
    let mut e = unsigned_event(URI, Method::Get);
    e.pubkey = "pk1".to_string();
    let bound = assign_username(e.clone(), &registry()).unwrap();
    assert_eq!(bound.username, "alicecarol");
    assert_eq!(bound.pubkey, e.pubkey);
    e.pubkey = "pk2".to_string();
    assert_eq!(assign_username(e, &registry()).unwrap().username, "bob");
}

#[test]
fn assign_username_refuses_unknown_or_nameless_keys() {
    let mut e = unsigned_event(URI, Method::Get);
    e.pubkey = "pk9".to_string();
    assert_eq!(assign_username(e.clone(), &registry()).err(), Some(NwtError::Invalid));
    e.pubkey = "pk3".to_string();
    assert_eq!(assign_username(e.clone(), &registry()).err(), Some(NwtError::Invalid));
    assert_eq!(assign_username(e, &vec![]).err(), Some(NwtError::Invalid));
}

#[test]
fn validate_accepts_a_signed_event() {
    let e = signed_event();
    assert_eq!(validate_nwt(&e), Ok(()));
}

#[test]
fn validate_refuses_a_wrong_id() {
    let mut e = signed_event();
    e.kind = 1;
    assert_eq!(validate_nwt(&e), Err(NwtError::Invalid));
}

#[test]
fn validate_refuses_a_forged_signature() {
    let mut e = signed_event();
    let mut other = unsigned_event("http://elsewhere", Method::Post);
    sign(&mut other, 0x22);
    e.sig = other.sig;
    assert_eq!(validate_nwt(&e), Err(NwtError::Invalid));
}

#[test]
fn validate_refuses_bad_hex() {
    let mut e = signed_event();
    e.sig.replace_range(0..1, "z");
    assert_eq!(validate_nwt(&e), Err(NwtError::Invalid));
    let mut e = signed_event();
    e.sig.push_str("00");
    assert_eq!(validate_nwt(&e), Err(NwtError::Invalid));
}

#[test]
fn validate_refuses_a_key_off_the_curve() {
    let mut e = unsigned_event(URI, Method::Get);
    e.pubkey = "00".repeat(32);
    e.id = e.generate_id();
    e.sig = "00".repeat(64);
    assert_eq!(validate_nwt(&e), Err(NwtError::Invalid));
}

#[test]
fn permissions_accept_the_granted_request() {
    let mut e = unsigned_event(URI, Method::Get);
    e.username = "alice".to_string();
    assert_eq!(check_nwt_permissions(Method::Get, "/call/alice/search", Some("tag=a"), &e), Ok(()));
}

#[test]
fn permissions_refuse_another_method() {
    let mut e = unsigned_event(URI, Method::Get);
    e.username = "alice".to_string();
    assert_eq!(
        check_nwt_permissions(Method::Post, "/call/alice/search", Some("tag=a"), &e),
        Err(NwtError::Invalid)
    );
}

#[test]
fn permissions_refuse_a_request_without_query() {
    let mut e = unsigned_event("http://localhost:8000/call/alice/search", Method::Get);
    e.username = "alice".to_string();
    assert_eq!(
        check_nwt_permissions(Method::Get, "/call/alice/search", None, &e),
        Err(NwtError::Invalid)
    );
}

#[test]
fn permissions_refuse_another_uri() {
    let mut e = unsigned_event(URI, Method::Get);
    e.username = "alice".to_string();
    assert_eq!(
        check_nwt_permissions(Method::Get, "/call/alice/search", Some("tag=b"), &e),
        Err(NwtError::Invalid)
    );
}

#[test]
fn permissions_compare_whole_path_components() {
    let mut e = unsigned_event("http://localhost:8000/call/alicebob/search?x", Method::Get);
    e.username = "alice".to_string();
    assert_eq!(
        check_nwt_permissions(Method::Get, "/call/alicebob/search", Some("x"), &e),
        Err(NwtError::Invalid)
    );
    let mut e = unsigned_event("http://localhost:8000/call/alice?x", Method::Get);
    e.username = "alice".to_string();
    assert_eq!(check_nwt_permissions(Method::Get, "/call/alice", Some("x"), &e), Ok(()));
}

#[test]
fn authorize_event_binds_checks_and_grants() {
    let e = signed_event();
    let names = vec![("alice".to_string(), e.pubkey.clone())];
    let bound = authorize_event(e.clone(), &names, Method::Get, "/call/alice/search", Some("tag=a")).unwrap();
    assert_eq!(bound.username, "alice");
    assert_eq!(bound.id, e.id);
}

#[test]
fn authorize_event_refusals_are_invalid() {
    let e = signed_event();
    let names = vec![("alice".to_string(), e.pubkey.clone())];
    assert_eq!(
        authorize_event(e.clone(), &vec![], Method::Get, "/call/alice/search", Some("tag=a")).err(),
        Some(NwtError::Invalid)
    );
    let names_bob = vec![("bob".to_string(), e.pubkey.clone())];
    assert_eq!(
        authorize_event(e.clone(), &names_bob, Method::Get, "/call/alice/search", Some("tag=a")).err(),
        Some(NwtError::Invalid)
    );
    let mut tampered = e.clone();
    tampered.created_at += 1;
    assert_eq!(
        authorize_event(tampered, &names, Method::Get, "/call/alice/search", Some("tag=a")).err(),
        Some(NwtError::Invalid)
    );
}

#[test]
fn validate_does_not_look_at_the_username() {
    let mut e = signed_event();
    e.username = "anyone".to_string();
    assert_eq!(validate_nwt(&e), Ok(()));
}
