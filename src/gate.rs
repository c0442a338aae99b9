//! Reading identity from request headers: the bearer credential gate, the
//! device (user-agent) annotation and the refresh-session cookie.

use vstd::prelude::*;
use vstd::slice::slice_subrange;

use crate::hex::{all_hex, check_all_hex, hex_fixed, hex_value, lemma_hex_fixed_shape, lemma_hex_round_trip, parse_hex, push_hex, radix};
use crate::session::{Identity, SessionService};
use crate::token::{lemma_token_layout, token_text, verify_result, TokenCodec};

verus! {

/// The request is not authenticated. No further detail is given.
#[derive(Debug, Clone, Copy, PartialEq, Eq, Structural)]
pub struct Unauthorized;

/// Bytes that a header value may hold to be read as text: visible ASCII and tab.
pub open spec fn is_visible(b: u8) -> bool {
    (32 <= b && b < 127) || b == 9
}

pub open spec fn all_visible(s: Seq<u8>) -> bool {
    forall|i: int| 0 <= i < s.len() ==> is_visible(#[trigger] s[i])
}

/// The characters of a run of ASCII bytes.
pub open spec fn ascii_chars(s: Seq<u8>) -> Seq<char> {
    s.map_values(|b: u8| b as char)
}

/// Relies on `String::from_utf8`: ASCII bytes are valid UTF-8 and decode to
/// the characters with the same codes.
#[verifier::external_body]
fn ascii_string(b: &[u8]) -> (r: String)
    requires
        all_visible(b@),
    ensures
        r@ == ascii_chars(b@),
{
    String::from_utf8(b.to_vec()).expect("visible ASCII is UTF-8")
}

/// `Bearer `, the scheme and its single separating space.
pub open spec fn bearer_prefix() -> Seq<u8> {
    seq![66u8, 101u8, 97u8, 114u8, 101u8, 114u8, 32u8]
}

/// The credential of an `Authorization` value of the form `Bearer <token>`:
/// readable text, the scheme `Bearer`, one space, then one non-empty token
/// with no further space.
pub open spec fn bearer_credential(h: Seq<u8>) -> Option<Seq<u8>> {
    if all_visible(h) && h.len() > 7 && h.subrange(0, 7) == bearer_prefix() && !h.subrange(
        7,
        h.len() as int,
    ).contains(32u8) {
        Some(h.subrange(7, h.len() as int))
    } else {
        None
    }
}

/// The bytes of a header value that may be absent.
pub open spec fn header_view(header: Option<&[u8]>) -> Option<Seq<u8>> {
    match header {
        Some(h) => Some(h@),
        None => None,
    }
}

/// The user a request is authenticated as, if any: the header is present,
/// holds a bearer credential, the credential verifies at `now`, and its
/// subject is a known user.
pub open spec fn authenticated_user(
    key: Seq<u8>,
    users: Map<u128, Identity>,
    header: Option<Seq<u8>>,
    now: u64,
) -> Option<u128> {
    match header {
        None => None,
        Some(h) => match bearer_credential(h) {
            None => None,
            Some(c) => match verify_result(key, c, now) {
                Err(_) => None,
                Ok(u) => if users.contains_key(u) {
                    Some(u)
                } else {
                    None
                },
            },
        },
    }
}

pub fn check_all_visible(s: &[u8]) -> (r: bool)
    ensures
        r == all_visible(s@),
{
    let mut i: usize = 0;
    while i < s.len()
        invariant
            i <= s.len(),
            forall|j: int| 0 <= j < i ==> is_visible(#[trigger] s@[j]),
        decreases s.len() - i,
    {
        let b = s[i];
        if !((32 <= b && b < 127) || b == 9) {
            return false;
        }
        i = i + 1;
    }
    true
}

/// The credential of a bearer `Authorization` value.
pub fn parse_bearer(h: &[u8]) -> (r: Option<&[u8]>)
    ensures
        match r {
            Some(c) => bearer_credential(h@) == Some(c@),
            None => bearer_credential(h@) is None,
        },
{
    if h.len() <= 7 || !check_all_visible(h) {
        return None;
    }
    let scheme: [u8; 7] = [66, 101, 97, 114, 101, 114, 32];
    let mut i: usize = 0;
    while i < 7
        invariant
            i <= 7,
            h@.len() > 7,
            scheme@ == bearer_prefix(),
            forall|j: int| 0 <= j < i ==> h@[j] == #[trigger] scheme@[j],
        decreases 7 - i,
    {
        if h[i] != scheme[i] {
            assert(h@.subrange(0, 7)[i as int] != bearer_prefix()[i as int]);
            return None;
        }
        i = i + 1;
    }
    assert(h@.subrange(0, 7) =~= bearer_prefix());
    let rest = slice_subrange(h, 7, h.len());
    let mut k: usize = 0;
    while k < rest.len()
        invariant
            k <= rest@.len(),
            forall|j: int| 0 <= j < k ==> #[trigger] rest@[j] != 32u8,
            h@.len() > 7,
            all_visible(h@),
            h@.subrange(0, 7) == bearer_prefix(),
            rest@ == h@.subrange(7, h@.len() as int),
        decreases rest.len() - k,
    {
        if rest[k] == 32 {
            assert(rest@[k as int] == 32u8);
            assert(rest@.contains(32u8));
            return None;
        }
        k = k + 1;
    }
    assert(!rest@.contains(32u8));
    Some(rest)
}

/// A request whose bearer credential names a known user.
pub struct RequiredAuthentication(pub u128);

impl RequiredAuthentication {
    /// Checks the `Authorization` header value (absent if `None`) against
    /// the service's codec and identity store. Every failure is the same
    /// `Unauthorized`.
    pub fn from_header(services: &SessionService, header: Option<&[u8]>, now: u64) -> (r: Result<
        RequiredAuthentication,
        Unauthorized,
    >)
        ensures
            match r {
                Ok(a) => authenticated_user(
                    services.token_codec().secret(),
                    services.user_map(),
                    header_view(header),
                    now,
                ) == Some(a.0),
                Err(_) => authenticated_user(
                    services.token_codec().secret(),
                    services.user_map(),
                    header_view(header),
                    now,
                ) is None,
            },
    {
        let h = match header {
            Some(h) => h,
            None => {
                return Err(Unauthorized);
            },
        };
        let credential = match parse_bearer(h) {
            Some(c) => c,
            None => {
                return Err(Unauthorized);
            },
        };
        let user_id = match services.codec().verify(credential, now) {
            Ok(u) => u,
            Err(_) => {
                return Err(Unauthorized);
            },
        };
        match services.resolve_identity(user_id) {
            Ok(_) => Ok(RequiredAuthentication(user_id)),
            Err(_) => Err(Unauthorized),
        }
    }
}

/// The client's user-agent text, kept to annotate sessions.
pub struct UserAgent(pub Option<String>);

impl UserAgent {
    /// Reads the `User-Agent` header value. An absent header is refused; a
    /// value that is not readable text is kept as the empty string.
    pub fn from_header(header: Option<&[u8]>) -> (r: Result<UserAgent, Unauthorized>)
        ensures
            header is None <==> r is Err,
            r matches Ok(UserAgent(Some(s))) ==> header matches Some(h) && (if all_visible(h@) {
                s@ == ascii_chars(h@)
            } else {
                s@ == Seq::<char>::empty()
            }),
            r matches Ok(UserAgent(a)) ==> a is Some,
    {
        match header {
            Some(h) => {
                if check_all_visible(h) {
                    Ok(UserAgent(Some(ascii_string(h))))
                } else {
                    Ok(UserAgent(Some(String::new())))
                }
            },
            None => Err(Unauthorized),
        }
    }

    /// The fingerprint recorded on a session.
    pub fn fingerprint(self) -> (r: String)
        ensures
            self.0 matches Some(s) ==> r == s,
            self.0 is None ==> r@ == Seq::<char>::empty(),
    {
        match self.0 {
            Some(s) => s,
            None => String::new(),
        }
    }
}

/// The name of the cookie that carries the refresh session.
pub const REFRESH_COOKIE: &'static str = "refresh_token";

/// The refresh cookie's value: the session id and the refresh token, 32 hex
/// digits each.
pub open spec fn refresh_cookie_text(session_id: u128, refresh_token: u128) -> Seq<u8> {
    hex_fixed(session_id as nat, 32) + hex_fixed(refresh_token as nat, 32)
}

/// The session id and refresh token a cookie value carries, if it has the
/// shape above.
pub open spec fn refresh_cookie_fields(c: Seq<u8>) -> Option<(u128, u128)> {
    if c.len() == 64 && all_hex(c) {
        Some((hex_value(c.subrange(0, 32)) as u128, hex_value(c.subrange(32, 64)) as u128))
    } else {
        None
    }
}

pub fn refresh_cookie(session_id: u128, refresh_token: u128) -> (r: Vec<u8>)
    ensures
        r@ == refresh_cookie_text(session_id, refresh_token),
{
    let mut out: Vec<u8> = Vec::new();
    push_hex(&mut out, session_id, 32);
    push_hex(&mut out, refresh_token, 32);
    assert(out@ =~= refresh_cookie_text(session_id, refresh_token));
    out
}

pub fn parse_refresh_cookie(c: &[u8]) -> (r: Option<(u128, u128)>)
    ensures
        r == refresh_cookie_fields(c@),
{
    if c.len() != 64 || !check_all_hex(c) {
        return None;
    }
    Some((parse_hex(c, 0, 32), parse_hex(c, 32, 64)))
}

/// Reading back a refresh cookie gives the session id and token it was made of.
pub proof fn lemma_refresh_cookie_round_trip(session_id: u128, refresh_token: u128)
    ensures
        refresh_cookie_fields(refresh_cookie_text(session_id, refresh_token)) == Some(
            (session_id, refresh_token),
        ),
{
    let a = hex_fixed(session_id as nat, 32);
    let b = hex_fixed(refresh_token as nat, 32);
    let c = refresh_cookie_text(session_id, refresh_token);
    lemma_hex_fixed_shape(session_id as nat, 32);
    lemma_hex_fixed_shape(refresh_token as nat, 32);
    assert(c.subrange(0, 32) =~= a);
    assert(c.subrange(32, 64) =~= b);
    assert forall|i: int| 0 <= i < c.len() implies crate::hex::is_hex_digit(#[trigger] c[i]) by {
        if i < 32 {
            assert(c[i] == a[i]);
        } else {
            assert(c[i] == b[i - 32]);
        }
    }
    reveal_with_fuel(radix, 33);
    lemma_hex_round_trip(session_id as nat, 32);
    lemma_hex_round_trip(refresh_token as nat, 32);
}

/// A request bearing an access token issued to a known user is
/// authenticated as that user until the token's lifetime runs out, and
/// refused from then on.
pub proof fn lemma_bearer_of_issued_token(
    codec: TokenCodec,
    users: Map<u128, Identity>,
    user_id: u128,
    issued_at: u64,
    now: u64,
)
    requires
        users.contains_key(user_id),
        issued_at + codec.lifetime() <= u64::MAX,
    ensures
        ({
            let t = token_text(codec.secret(), user_id, issued_at, (issued_at + codec.lifetime()) as u64);
            let result = authenticated_user(codec.secret(), users, Some(bearer_prefix() + t), now);
            &&& now < issued_at + codec.lifetime() ==> result == Some(user_id)
            &&& now >= issued_at + codec.lifetime() ==> result is None
        }),
{
    let t = token_text(codec.secret(), user_id, issued_at, (issued_at + codec.lifetime()) as u64);
    lemma_token_layout(codec.secret(), user_id, issued_at, (issued_at + codec.lifetime()) as u64);
    let h = bearer_prefix() + t;
    assert(h.subrange(0, 7) =~= bearer_prefix());
    assert(h.subrange(7, h.len() as int) =~= t);
    assert forall|i: int| 0 <= i < h.len() implies is_visible(#[trigger] h[i]) by {
        if i >= 7 {
            assert(h[i] == t[i - 7]);
            assert(crate::hex::is_hex_digit(t[i - 7]));
        }
    }
    if t.contains(32u8) {
        let i = choose|i: int| 0 <= i < t.len() && t[i] == 32u8;
        assert(crate::hex::is_hex_digit(t[i]));
    }
    assert(bearer_credential(h) == Some(t));
}

} // verus!
