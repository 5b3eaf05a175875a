use fun8s_lite::error::Error;
use fun8s_lite::token::{decode_token, encode_token, ARG};

#[test]
fn token_is_base64_of_the_text() {
    assert_eq!(encode_token("{\"a\":1}"), "eyJhIjoxfQ==");
    assert_eq!(encode_token(""), "");
}

#[test]
fn token_round_trip() {
    let payload = "{\"mesh_cfg\":\"H4sI\",\"v_mesh_cfg\":null,\"name\":\"node\",\"join\":null}";
    let t = encode_token(payload);
    assert!(t != payload);
    assert_eq!(decode_token(&t).ok().unwrap(), payload);
    let unicode = "名前 ✓";
    assert_eq!(decode_token(&encode_token(unicode)).ok().unwrap(), unicode);
}

#[test]
fn decode_token_known_value() {
    assert_eq!(decode_token("aGVsbG8gd29ybGQ=").ok().unwrap(), "hello world");
}

#[test]
fn decode_token_refuses_non_base64() {
    assert!(matches!(decode_token("not base64!"), Err(Error::TokenError)));
}

#[test]
fn decode_token_refuses_non_utf8() {
    assert!(matches!(decode_token("/w=="), Err(Error::TokenError)));
}

#[test]
fn test_update_leaves_argument() {
    let mut a = ARG { mesh_cfg: Some("x".to_string()), v_mesh_cfg: None, name: "node".to_string(), join: None };
    assert!(a.test_update().is_ok());
    assert_eq!(a.mesh_cfg.as_deref(), Some("x"));
    assert_eq!(a.name, "node");
    assert!(a.v_mesh_cfg.is_none());
    assert!(a.join.is_none());
}
