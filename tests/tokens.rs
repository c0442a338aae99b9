use hmac::Mac;
use rest_auth::token::{TokenCodec, TokenError};

fn codec() -> TokenCodec {
    TokenCodec::new(b"signing-key".to_vec(), 900)
}

#[test]
fn issue_then_verify_round_trip() {
    let c = codec();
    for subject in [0u128, 1, 255, 0x1234_5678_9abc_def0_1122_3344_5566_7788, u128::MAX] {
        let t = c.issue(subject, 1_700_000_000);
        assert_eq!(c.verify(&t, 1_700_000_000), Ok(subject));
    }
}

#[test]
fn token_layout_is_exact() {
    let c = codec();
    let t = c.issue(255, 16);
    assert_eq!(t.len(), 128);
    let text = String::from_utf8(t.clone()).unwrap();
    assert_eq!(&text[0..32], "000000000000000000000000000000ff");
    assert_eq!(&text[32..48], "0000000000000010");
    assert_eq!(&text[48..64], "0000000000000394");
    let mut m = hmac::Hmac::<sha2::Sha256>::new_from_slice(b"signing-key").unwrap();
    m.update(&t[0..64]);
    let tag = m.finalize().into_bytes();
    let hex: String = tag.iter().map(|b| format!("{:02x}", b)).collect();
    assert_eq!(&text[64..128], hex);
}

#[test]
fn verify_after_ttl_is_expired() {
    let c = codec();
    let t = c.issue(42, 1000);
    assert_eq!(c.verify(&t, 1899), Ok(42));
    assert_eq!(c.verify(&t, 1900), Err(TokenError::Expired));
    assert_eq!(c.verify(&t, 5000), Err(TokenError::Expired));
}

#[test]
fn altered_signature_is_rejected() {
    let c = codec();
    let t = c.issue(7, 1000);
    for i in 64..128 {
        let mut bad = t.clone();
        bad[i] = if bad[i] == b'0' { b'1' } else { b'0' };
        assert_eq!(c.verify(&bad, 1000), Err(TokenError::SignatureInvalid));
    }
    let mut upper = t.clone();
    upper[100] = b'G';
    assert_eq!(c.verify(&upper, 1000), Err(TokenError::Malformed));
}

#[test]
fn altered_claims_are_rejected() {
    let c = codec();
    let t = c.issue(7, 1000);
    let mut bad = t.clone();
    bad[31] = b'8';
    assert_eq!(c.verify(&bad, 1000), Err(TokenError::SignatureInvalid));
}

#[test]
fn other_key_is_signature_invalid() {
    let t = codec().issue(7, 1000);
    let other = TokenCodec::new(b"another-key".to_vec(), 900);
    assert_eq!(other.verify(&t, 1000), Err(TokenError::SignatureInvalid));
}

#[test]
fn malformed_tokens() {
    let c = codec();
    assert_eq!(c.verify(b"", 0), Err(TokenError::Malformed));
    assert_eq!(c.verify(b"abc", 0), Err(TokenError::Malformed));
    let t = c.issue(7, 1000);
    assert_eq!(c.verify(&t[0..127], 1000), Err(TokenError::Malformed));
    let mut long = t.clone();
    long.push(b'0');
    assert_eq!(c.verify(&long, 1000), Err(TokenError::Malformed));
    let mut dotted = t.clone();
    dotted[10] = b'.';
    assert_eq!(c.verify(&dotted, 1000), Err(TokenError::Malformed));
}

#[test]
fn zero_lifetime_token_is_already_expired() {
    let c = TokenCodec::new(b"k".to_vec(), 0);
    let t = c.issue(3, 50);
    assert_eq!(c.ttl(), 0);
    assert_eq!(c.verify(&t, 50), Err(TokenError::Expired));
}
