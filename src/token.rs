//! Compact signed access tokens.
//!
//! A token is 128 lowercase hex characters: the subject (32 digits), the
//! issue time (16 digits) and the expiry time (16 digits), followed by the
//! HMAC-SHA256 tag of those 64 characters (64 digits).

use vstd::prelude::*;
use vstd::slice::slice_subrange;

use crate::hex::{
    all_hex, check_all_hex, encode_bytes, hex_bytes, hex_fixed, hex_value, lemma_hex_bytes_shape,
    lemma_hex_fixed_shape, lemma_hex_round_trip, parse_hex, push_hex, radix,
};

verus! {

pub const SUBJECT_DIGITS: usize = 32;

pub const TIME_DIGITS: usize = 16;

pub const CLAIMS_LEN: usize = 64;

pub const TOKEN_LEN: usize = 128;

/// The HMAC-SHA256 tag of `msg` under `key`.
pub uninterp spec fn hmac_sha256(key: Seq<u8>, msg: Seq<u8>) -> Seq<u8>;

/// Relies on `hmac::Hmac<sha2::Sha256>` (`Mac::new_from_slice`, `update`,
/// `finalize`): the 32-byte HMAC-SHA256 tag, a function of key and message
/// alone. HMAC accepts keys of every length, so the constructor cannot fail.
#[verifier::external_body]
fn mac(key: &[u8], msg: &[u8]) -> (r: Vec<u8>)
    ensures
        r@ == hmac_sha256(key@, msg@),
        r@.len() == 32,
{
    let mut m = <hmac::Hmac<sha2::Sha256> as hmac::Mac>::new_from_slice(key).expect(
        "HMAC accepts keys of any length",
    );
    hmac::Mac::update(&mut m, msg);
    hmac::Mac::finalize(m).into_bytes().to_vec()
}

/// Why a presented token was refused.
#[derive(Debug, Clone, Copy, PartialEq, Eq, Structural)]
pub enum TokenError {
    Malformed,
    SignatureInvalid,
    Expired,
}

/// The tag of `msg`, always 32 bytes: HMAC-SHA256 yields exactly that many,
/// and the zero fallback makes the length hold without appeal to the hash.
pub open spec fn signature_bytes(key: Seq<u8>, msg: Seq<u8>) -> Seq<u8> {
    let h = hmac_sha256(key, msg);
    if h.len() == 32 {
        h
    } else {
        Seq::new(32, |i: int| 0u8)
    }
}

/// The signed part of a token.
pub open spec fn claims_text(subject: u128, issued_at: u64, expires_at: u64) -> Seq<u8> {
    hex_fixed(subject as nat, 32) + hex_fixed(issued_at as nat, 16) + hex_fixed(
        expires_at as nat,
        16,
    )
}

/// The whole token for these claims under `key`.
pub open spec fn token_text(key: Seq<u8>, subject: u128, issued_at: u64, expires_at: u64) -> Seq<
    u8,
> {
    claims_text(subject, issued_at, expires_at) + hex_bytes(
        signature_bytes(key, claims_text(subject, issued_at, expires_at)),
    )
}

/// What verifying `t` at time `now` under `key` yields: shape first, then
/// the signature, then the expiry.
pub open spec fn verify_result(key: Seq<u8>, t: Seq<u8>, now: u64) -> Result<u128, TokenError> {
    if t.len() != 128 || !all_hex(t) {
        Err(TokenError::Malformed)
    } else if t.subrange(64, 128) != hex_bytes(signature_bytes(key, t.subrange(0, 64))) {
        Err(TokenError::SignatureInvalid)
    } else if hex_value(t.subrange(48, 64)) <= now {
        Err(TokenError::Expired)
    } else {
        Ok(hex_value(t.subrange(0, 32)) as u128)
    }
}

/// Issues and checks access tokens with one signing key and one lifetime,
/// both fixed when the codec is built.
pub struct TokenCodec {
    key: Vec<u8>,
    ttl: u64,
}

impl TokenCodec {
    pub closed spec fn secret(&self) -> Seq<u8> {
        self.key@
    }

    /// Token lifetime in seconds.
    pub closed spec fn lifetime(&self) -> u64 {
        self.ttl
    }

    pub fn new(key: Vec<u8>, ttl: u64) -> (r: TokenCodec)
        ensures
            r.secret() == key@,
            r.lifetime() == ttl,
    {
        TokenCodec { key, ttl }
    }

    pub fn ttl(&self) -> (r: u64)
        ensures
            r == self.lifetime(),
    {
        self.ttl
    }

    /// A token for `subject`, issued at `now` and expiring one lifetime later.
    pub fn issue(&self, subject: u128, now: u64) -> (r: Vec<u8>)
        requires
            now + self.lifetime() <= u64::MAX,
        ensures
            r@ == token_text(self.secret(), subject, now, (now + self.lifetime()) as u64),
    {
        let expires_at: u64 = now + self.ttl;
        let mut out: Vec<u8> = Vec::new();
        push_hex(&mut out, subject, SUBJECT_DIGITS);
        push_hex(&mut out, now as u128, TIME_DIGITS);
        push_hex(&mut out, expires_at as u128, TIME_DIGITS);
        assert(out@ =~= claims_text(subject, now, expires_at));
        let tag = mac(self.key.as_slice(), out.as_slice());
        let sig = encode_bytes(tag.as_slice());
        let mut i: usize = 0;
        let ghost claims = out@;
        proof {
            lemma_hex_bytes_shape(tag@);
        }
        while i < sig.len()
            invariant
                i <= sig@.len(),
                out@ == claims + sig@.subrange(0, i as int),
            decreases sig.len() - i,
        {
            out.push(sig[i]);
            i = i + 1;
            assert(out@ =~= claims + sig@.subrange(0, i as int));
        }
        assert(sig@.subrange(0, sig@.len() as int) =~= sig@);
        out
    }

    /// The subject of `token` if it is well formed, carries this codec's
    /// signature and has not expired at `now`.
    pub fn verify(&self, token: &[u8], now: u64) -> (r: Result<u128, TokenError>)
        ensures
            r == verify_result(self.secret(), token@, now),
    {
        if token.len() != TOKEN_LEN || !check_all_hex(token) {
            return Err(TokenError::Malformed);
        }
        let claims = slice_subrange(token, 0, CLAIMS_LEN);
        let tag = mac(self.key.as_slice(), claims);
        let expected = encode_bytes(tag.as_slice());
        proof {
            lemma_hex_bytes_shape(tag@);
            assert(signature_bytes(self.key@, claims@) == tag@);
        }
        let mut i: usize = 0;
        while i < 64
            invariant
                token@.len() == 128,
                all_hex(token@),
                expected@.len() == 64,
                i <= 64,
                forall|j: int| 0 <= j < i ==> token@[64 + j] == #[trigger] expected@[j],
                expected@ == hex_bytes(signature_bytes(self.secret(), token@.subrange(0, 64))),
            decreases 64 - i,
        {
            if token[CLAIMS_LEN + i] != expected[i] {
                assert(token@.subrange(64, 128)[i as int] != expected@[i as int]);
                return Err(TokenError::SignatureInvalid);
            }
            i = i + 1;
        }
        assert(token@.subrange(64, 128) =~= expected@);
        let expires_at = parse_hex(token, 48, CLAIMS_LEN);
        if expires_at <= now as u128 {
            return Err(TokenError::Expired);
        }
        Ok(parse_hex(token, 0, SUBJECT_DIGITS))
    }
}

/// Where each field of an issued token sits, and that it is all hex text.
pub proof fn lemma_token_layout(key: Seq<u8>, subject: u128, issued_at: u64, expires_at: u64)
    ensures
        ({
            let t = token_text(key, subject, issued_at, expires_at);
            &&& t.len() == 128
            &&& all_hex(t)
            &&& t.subrange(0, 64) == claims_text(subject, issued_at, expires_at)
            &&& t.subrange(64, 128) == hex_bytes(
                signature_bytes(key, claims_text(subject, issued_at, expires_at)),
            )
            &&& hex_value(t.subrange(0, 32)) == subject
            &&& hex_value(t.subrange(48, 64)) == expires_at
        }),
{
    let t = token_text(key, subject, issued_at, expires_at);
    let a = hex_fixed(subject as nat, 32);
    let b = hex_fixed(issued_at as nat, 16);
    let c = hex_fixed(expires_at as nat, 16);
    let sig = hex_bytes(signature_bytes(key, claims_text(subject, issued_at, expires_at)));
    lemma_hex_fixed_shape(subject as nat, 32);
    lemma_hex_fixed_shape(issued_at as nat, 16);
    lemma_hex_fixed_shape(expires_at as nat, 16);
    lemma_hex_bytes_shape(signature_bytes(key, claims_text(subject, issued_at, expires_at)));
    assert(t.subrange(0, 64) =~= a + b + c);
    assert(t.subrange(64, 128) =~= sig);
    assert(t.subrange(0, 32) =~= a);
    assert(t.subrange(48, 64) =~= c);
    assert forall|i: int| 0 <= i < t.len() implies crate::hex::is_hex_digit(#[trigger] t[i]) by {
        if i < 32 {
            assert(t[i] == a[i]);
        } else if i < 48 {
            assert(t[i] == b[i - 32]);
        } else if i < 64 {
            assert(t[i] == c[i - 48]);
        } else {
            assert(t[i] == sig[i - 64]);
        }
    }
    reveal_with_fuel(radix, 33);
    lemma_hex_round_trip(subject as nat, 32);
    lemma_hex_round_trip(expires_at as nat, 16);
}

/// A token verified at the moment it was issued yields its subject back,
/// provided the lifetime is not zero.
pub proof fn lemma_issue_then_verify(codec: TokenCodec, subject: u128, now: u64)
    requires
        codec.lifetime() > 0,
        now + codec.lifetime() <= u64::MAX,
    ensures
        verify_result(
            codec.secret(),
            token_text(codec.secret(), subject, now, (now + codec.lifetime()) as u64),
            now,
        ) == Ok::<u128, TokenError>(subject),
{
    lemma_token_layout(codec.secret(), subject, now, (now + codec.lifetime()) as u64);
}

/// A token checked once its lifetime has run out is refused as expired.
pub proof fn lemma_verify_after_lifetime(codec: TokenCodec, subject: u128, issued_at: u64, now: u64)
    requires
        issued_at + codec.lifetime() <= u64::MAX,
        now >= issued_at + codec.lifetime(),
    ensures
        verify_result(
            codec.secret(),
            token_text(codec.secret(), subject, issued_at, (issued_at + codec.lifetime()) as u64),
            now,
        ) == Err::<u128, TokenError>(TokenError::Expired),
{
    lemma_token_layout(codec.secret(), subject, issued_at, (issued_at + codec.lifetime()) as u64);
}

/// Changing any of the signature characters of an issued token, whatever its
/// claims, makes it fail verification at every time; while the token stays
/// hex text the failure is a bad signature.
pub proof fn lemma_altered_signature(
    codec: TokenCodec,
    subject: u128,
    issued_at: u64,
    altered: Seq<u8>,
    now: u64,
)
    requires
        issued_at + codec.lifetime() <= u64::MAX,
        altered.len() == 128,
        altered.subrange(0, 64) == token_text(
            codec.secret(),
            subject,
            issued_at,
            (issued_at + codec.lifetime()) as u64,
        ).subrange(0, 64),
        altered.subrange(64, 128) != token_text(
            codec.secret(),
            subject,
            issued_at,
            (issued_at + codec.lifetime()) as u64,
        ).subrange(64, 128),
    ensures
        verify_result(codec.secret(), altered, now).is_err(),
        all_hex(altered) ==> verify_result(codec.secret(), altered, now) == Err::<u128, TokenError>(
            TokenError::SignatureInvalid,
        ),
{
    lemma_token_layout(codec.secret(), subject, issued_at, (issued_at + codec.lifetime()) as u64);
}

} // verus!
