//! Tests of the base64url codec against known vectors, the `base64` crate,
//! and its own round trip.

use actix_web_detached_jws_middleware::{b64url_decode, b64url_encode};
use base64::Engine;

fn enc(data: &[u8]) -> Vec<u8> {
    b64url_encode(data)
}

#[test]
fn rfc_vectors() {
    assert_eq!(enc(b""), b"".to_vec());
    assert_eq!(enc(b"f"), b"Zg".to_vec());
    assert_eq!(enc(b"fo"), b"Zm8".to_vec());
    assert_eq!(enc(b"foo"), b"Zm9v".to_vec());
    assert_eq!(enc(b"foob"), b"Zm9vYg".to_vec());
    assert_eq!(enc(b"fooba"), b"Zm9vYmE".to_vec());
    assert_eq!(enc(b"foobar"), b"Zm9vYmFy".to_vec());
}

#[test]
fn url_safe_alphabet() {
    // 0xff 0xef forces the '-' and '_'-side characters.
    assert_eq!(enc(&[0xff, 0xef]), b"_-8".to_vec());
    assert_eq!(enc(&[0xfb, 0xff, 0xbf]), b"-_-_".to_vec());
}

#[test]
fn matches_base64_crate() {
    let engine = &base64::engine::general_purpose::URL_SAFE_NO_PAD;
    for n in 0..48usize {
        let data: Vec<u8> = (0..n).map(|i| (i * 37 + n * 11) as u8).collect();
        let ours = String::from_utf8(enc(&data)).unwrap();
        let theirs = engine.encode(&data);
        assert_eq!(ours, theirs, "encode mismatch at n={}", n);
        let decoded = b64url_decode(ours.as_bytes()).unwrap();
        assert_eq!(decoded, data, "decode mismatch at n={}", n);
    }
}

#[test]
fn decode_rejects_bad_input() {
    assert!(b64url_decode(b"A").is_none());
    assert!(b64url_decode(b"AAAAA").is_none());
    assert!(b64url_decode(b"ab=d").is_none());
    assert!(b64url_decode(b"a.cd").is_none());
    assert!(b64url_decode(b"ab+d").is_none());
    assert!(b64url_decode(b"ab/d").is_none());
}

#[test]
fn decode_inverts_encode() {
    for n in 0..60usize {
        let data: Vec<u8> = (0..n).map(|i| (251 * i + 3) as u8).collect();
        let encoded = enc(&data);
        assert_eq!(b64url_decode(&encoded), Some(data));
    }
}

#[test]
fn decode_empty_is_empty() {
    assert_eq!(b64url_decode(b""), Some(Vec::new()));
}
