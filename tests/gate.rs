use rest_auth::controller::{ApiError, UserController};
use rest_auth::gate::{
    parse_bearer, parse_refresh_cookie, refresh_cookie, RequiredAuthentication, Unauthorized,
    UserAgent,
};
use rest_auth::session::{Identity, SessionService};
use rest_auth::token::TokenCodec;

const TTL: u64 = 900;

fn service_with_user(id: u128) -> SessionService {
    let mut s = SessionService::new(TokenCodec::new(b"key".to_vec(), TTL), 86_400);
    let user = Identity {
        id,
        email: String::from("a@example.com"),
        name: String::from("Alice"),
        password_hash: String::from("hash"),
    };
    UserController::signup_user_endpoint(&mut s, user).unwrap();
    s
}

fn bearer(token: &[u8]) -> Vec<u8> {
    let mut h = b"Bearer ".to_vec();
    h.extend_from_slice(token);
    h
}

#[test]
fn bearer_header_shapes() {
    assert_eq!(parse_bearer(b"Bearer abc"), Some(&b"abc"[..]));
    assert_eq!(parse_bearer(b"Basic abc"), None);
    assert_eq!(parse_bearer(b"Bearer a b"), None);
    assert_eq!(parse_bearer(b"Bearer  abc"), None);
    assert_eq!(parse_bearer(b"Bearer "), None);
    assert_eq!(parse_bearer(b"Bearer"), None);
    assert_eq!(parse_bearer(b"bearer abc"), None);
    assert_eq!(parse_bearer(b"Bearer ab\x01c"), None);
}

#[test]
fn gate_accepts_valid_bearer_of_known_user() {
    let s = service_with_user(8);
    let t = s.codec().issue(8, 100);
    let auth = RequiredAuthentication::from_header(&s, Some(&bearer(&t)), 100).unwrap();
    assert_eq!(auth.0, 8);
}

#[test]
fn gate_refuses_every_failure_alike() {
    let s = service_with_user(8);
    let t = s.codec().issue(8, 100);
    assert!(matches!(RequiredAuthentication::from_header(&s, None, 100), Err(Unauthorized)));
    assert!(matches!(
        RequiredAuthentication::from_header(&s, Some(&bearer(&t)), 100 + TTL),
        Err(Unauthorized)
    ));
    assert!(matches!(
        RequiredAuthentication::from_header(&s, Some(&bearer(b"garbage")), 100),
        Err(Unauthorized)
    ));
    let stranger = s.codec().issue(9, 100);
    assert!(matches!(
        RequiredAuthentication::from_header(&s, Some(&bearer(&stranger)), 100),
        Err(Unauthorized)
    ));
}

#[test]
fn basic_scheme_is_refused_before_the_handler_runs() {
    let mut s = service_with_user(8);
    let r = UserController::update_user_endpoint(
        &mut s,
        Some(b"Basic abc"),
        100,
        Some(String::from("Mallory")),
        None,
    );
    assert!(matches!(r, Err(ApiError::Unauthorized)));
    assert_eq!(s.resolve_identity(8).unwrap().name, "Alice");
}

#[test]
fn update_user_changes_only_given_fields() {
    let mut s = service_with_user(8);
    let t = s.codec().issue(8, 100);
    let updated = UserController::update_user_endpoint(
        &mut s,
        Some(&bearer(&t)),
        100,
        Some(String::from("Alicia")),
        None,
    )
    .unwrap();
    assert_eq!(updated.name, "Alicia");
    assert_eq!(updated.email, "a@example.com");
    assert_eq!(s.resolve_identity(8).unwrap().name, "Alicia");
}

#[test]
fn user_agent_header() {
    assert!(matches!(UserAgent::from_header(None), Err(Unauthorized)));
    let ua = UserAgent::from_header(Some(b"Mozilla/5.0 (X11)")).unwrap();
    assert_eq!(ua.0.as_deref(), Some("Mozilla/5.0 (X11)"));
    let odd = UserAgent::from_header(Some(b"bad\x7fvalue")).unwrap();
    assert_eq!(odd.fingerprint(), "");
}

#[test]
fn refresh_cookie_round_trip() {
    let c = refresh_cookie(0xabc, 0x12);
    assert_eq!(
        String::from_utf8(c.clone()).unwrap(),
        "00000000000000000000000000000abc00000000000000000000000000000012"
    );
    assert_eq!(parse_refresh_cookie(&c), Some((0xabc, 0x12)));
    assert_eq!(parse_refresh_cookie(b"xyz"), None);
}

#[test]
fn signup_twice_is_conflict() {
    let mut s = service_with_user(8);
    let again = Identity {
        id: 8,
        email: String::from("b@example.com"),
        name: String::from("Bob"),
        password_hash: String::new(),
    };
    assert!(matches!(UserController::signup_user_endpoint(&mut s, again), Err(ApiError::Conflict)));
}

#[test]
fn sign_in_whoami_expire_refresh_scenario() {
    let mut s = service_with_user(8);
    let ua = UserAgent::from_header(Some(b"Chrome")).unwrap();
    let (who, r0, t0) = UserController::signin_user_endpoint(&mut s, 8, ua, 1000).unwrap();
    assert_eq!(who.id, 8);
    let me = UserController::get_current_user_endpoint(&s, Some(&bearer(&t0)), 1000).unwrap();
    assert_eq!(me.email, "a@example.com");
    assert!(matches!(
        UserController::get_current_user_endpoint(&s, Some(&bearer(&t0)), 1000 + TTL),
        Err(ApiError::Unauthorized)
    ));
    let later = 1000 + TTL + 1;
    let (again, r1, t1) = UserController::refresh_user_endpoint(&mut s, Some(&r0), later).unwrap();
    assert_eq!(again.id, 8);
    assert_ne!(r1, r0);
    let me = UserController::get_current_user_endpoint(&s, Some(&bearer(&t1)), later).unwrap();
    assert_eq!(me.id, 8);
    assert!(matches!(
        UserController::refresh_user_endpoint(&mut s, Some(&r0), later),
        Err(ApiError::Unauthorized)
    ));
    // the replayed cookie revoked the session, so the rotated one is dead too
    assert!(matches!(
        UserController::refresh_user_endpoint(&mut s, Some(&r1), later),
        Err(ApiError::Unauthorized)
    ));
}

#[test]
fn signup_with_taken_email_is_conflict() {
    let mut s = service_with_user(8);
    let other = Identity {
        id: 9,
        email: String::from("a@example.com"),
        name: String::from("Eve"),
        password_hash: String::new(),
    };
    assert!(matches!(UserController::signup_user_endpoint(&mut s, other), Err(ApiError::Conflict)));
    assert!(s.resolve_identity(9).is_err());
}

#[test]
fn update_to_taken_email_is_conflict() {
    let mut s = service_with_user(8);
    let other = Identity {
        id: 9,
        email: String::from("b@example.com"),
        name: String::from("Bob"),
        password_hash: String::new(),
    };
    UserController::signup_user_endpoint(&mut s, other).unwrap();
    let t = s.codec().issue(8, 100);
    let r = UserController::update_user_endpoint(
        &mut s,
        Some(&bearer(&t)),
        100,
        None,
        Some(String::from("b@example.com")),
    );
    assert!(matches!(r, Err(ApiError::Conflict)));
    assert_eq!(s.resolve_identity(8).unwrap().email, "a@example.com");
}

#[test]
fn sign_in_of_unknown_user_is_unauthorized() {
    let mut s = service_with_user(8);
    let ua = UserAgent::from_header(Some(b"Chrome")).unwrap();
    assert!(matches!(
        UserController::signin_user_endpoint(&mut s, 9, ua, 1000),
        Err(ApiError::Unauthorized)
    ));
}

#[test]
fn sign_out_revokes_the_session() {
    let mut s = service_with_user(8);
    let ua = UserAgent::from_header(Some(b"Chrome")).unwrap();
    let (_, r0, _) = UserController::signin_user_endpoint(&mut s, 8, ua, 1000).unwrap();
    assert_eq!(UserController::signout_user_endpoint(&mut s, Some(&r0)), Ok(()));
    assert_eq!(UserController::signout_user_endpoint(&mut s, Some(&r0)), Ok(()));
    assert!(matches!(
        UserController::refresh_user_endpoint(&mut s, Some(&r0), 1001),
        Err(ApiError::Unauthorized)
    ));
    assert_eq!(UserController::signout_user_endpoint(&mut s, None), Err(ApiError::Unauthorized));
    assert_eq!(
        UserController::signout_user_endpoint(&mut s, Some(b"nonsense")),
        Err(ApiError::Unauthorized)
    );
}
