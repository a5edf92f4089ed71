//! Tests of the detached-token codec: building, parsing, the round trip,
//! rejection of malformed tokens, and header JSON from other producers.

use actix_web_detached_jws_middleware::{
    b64url_encode, build_detached_token, parse_detached_token, Algorithm, TokenError,
};

#[test]
fn build_and_parse_round_trip() {
    let sig: Vec<u8> = (0..64u8).collect();
    let token = build_detached_token(&Algorithm::Ps256, &sig);
    let parsed = parse_detached_token(&token).unwrap();
    assert_eq!(parsed.alg, Algorithm::Ps256);
    assert_eq!(parsed.signature, sig);
    assert_eq!(parsed.header_b64, b64url_encode(br#"{"alg":"PS256"}"#));
}

#[test]
fn token_shape_is_header_dotdot_signature() {
    let token = build_detached_token(&Algorithm::Rs256, b"sig");
    let text = String::from_utf8(token).unwrap();
    let parts: Vec<&str> = text.split('.').collect();
    assert_eq!(parts.len(), 3);
    assert!(parts[1].is_empty());
    assert_eq!(parts[0], "eyJhbGciOiJSUzI1NiJ9");  // base64url({"alg":"RS256"})
}

#[test]
fn parse_rejects_wrong_shapes() {
    assert_eq!(parse_detached_token(b"").unwrap_err(), TokenError::Malformed);
    assert_eq!(parse_detached_token(b"abcd").unwrap_err(), TokenError::Malformed);
    assert_eq!(parse_detached_token(b"abcd..").unwrap_err(), TokenError::Malformed);
    assert_eq!(parse_detached_token(b"abcd.efgh").unwrap_err(), TokenError::Malformed);
    // A non-empty payload segment is not a detached token.
    assert_eq!(parse_detached_token(b"eyJhbGciOiJSUzI1NiJ9.QUFB.QUFB").unwrap_err(),
        TokenError::Malformed);
    // More than three segments.
    assert_eq!(parse_detached_token(b"eyJhbGciOiJSUzI1NiJ9..QUFB.QUFB").unwrap_err(),
        TokenError::Malformed);
}

#[test]
fn parse_rejects_bad_base64() {
    // '=' padding is not part of the unpadded alphabet.
    assert_eq!(parse_detached_token(b"eyJhbGciOiJSUzI1NiJ9=..QUFB").unwrap_err(),
        TokenError::Malformed);
    let mut t = b"eyJhbGciOiJSUzI1NiJ9..".to_vec();
    t.extend_from_slice(b"QUF=");
    assert_eq!(parse_detached_token(&t).unwrap_err(), TokenError::Malformed);
}

#[test]
fn parse_accepts_foreign_header_fields() {
    // A header JSON another producer might emit: extra fields, different
    // ordering and spacing; the alg field still resolves.
    let header = br#"{ "typ": "JOSE", "alg": "PS256", "crit": [] }"#;
    let mut token = b64url_encode(header);
    token.push(b'.');
    token.push(b'.');
    token.extend_from_slice(&b64url_encode(b"anything"));
    let parsed = parse_detached_token(&token).unwrap();
    assert_eq!(parsed.alg, Algorithm::Ps256);
    assert_eq!(parsed.signature, b"anything".to_vec());
}

#[test]
fn parse_rejects_unknown_algorithm() {
    let header = br#"{"alg":"ES256"}"#;
    let mut token = b64url_encode(header);
    token.extend_from_slice(b"..");
    token.extend_from_slice(&b64url_encode(b"sig"));
    assert_eq!(parse_detached_token(&token).unwrap_err(), TokenError::UnknownAlgorithm);
}

#[test]
fn parse_rejects_header_without_string_alg() {
    for header in [&br#"{"alg":5}"#[..], br#"{}"#, br#"[1,2]"#, b"not json"] {
        let mut token = b64url_encode(header);
        token.extend_from_slice(b"..");
        token.extend_from_slice(&b64url_encode(b"sig"));
        assert_eq!(parse_detached_token(&token).unwrap_err(), TokenError::Malformed);
    }
}
