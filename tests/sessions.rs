use rest_auth::session::{successor_token, Identity, IdentityError, SessionError, SessionService};
use rest_auth::token::TokenCodec;

fn service() -> SessionService {
    SessionService::new(TokenCodec::new(b"key".to_vec(), 900), 86_400)
}

fn identity(id: u128) -> Identity {
    Identity {
        id,
        email: format!("user{}@example.com", id),
        name: format!("user {}", id),
        password_hash: String::from("hash"),
    }
}

#[test]
fn create_session_records_the_session() {
    let mut s = service();
    let (session, rt, token) = s.create_session_with(5, String::from("curl"), 100, 11, 22).unwrap();
    assert_eq!(session.id, 11);
    assert_eq!(session.user_id, 5);
    assert_eq!(rt, 22);
    assert_eq!(session.refresh_token, 22);
    assert_eq!(session.device_fingerprint, "curl");
    assert_eq!(session.created_at, 100);
    assert_eq!(session.expires_at, 86_500);
    assert!(!session.revoked);
    assert_eq!(s.codec().verify(&token, 100), Ok(5));
    let stored = s.find_session(11).unwrap();
    assert_eq!(stored.refresh_token, 22);
}

#[test]
fn duplicate_session_id_is_internal_error() {
    let mut s = service();
    s.create_session_with(5, String::new(), 100, 11, 22).unwrap();
    assert!(matches!(
        s.create_session_with(6, String::new(), 100, 11, 33),
        Err(SessionError::Internal)
    ));
    assert_eq!(s.find_session(11).unwrap().user_id, 5);
}

#[test]
fn refresh_succeeds_exactly_once() {
    let mut s = service();
    let (session, rt, _) = s.create_session(5, String::from("ua"), 100).unwrap();
    let (next, token) = s.refresh(session.id, rt, 200).unwrap();
    assert_ne!(next, rt);
    assert_eq!(s.codec().verify(&token, 200), Ok(5));
    assert!(matches!(s.refresh(session.id, rt, 300), Err(SessionError::TokenMismatch)));
    assert!(s.find_session(session.id).unwrap().revoked);
    assert!(matches!(s.refresh(session.id, next, 300), Err(SessionError::SessionNotFound)));
}

#[test]
fn two_refreshes_with_one_token_never_both_succeed() {
    let mut s = service();
    s.create_session_with(5, String::new(), 100, 1, 2).unwrap();
    let first = s.refresh_with(1, 2, 9, 100);
    let second = s.refresh_with(1, 2, 10, 100);
    assert_eq!(first.as_ref().map(|r| r.0), Ok((1u128 << 64) + 9));
    assert!(matches!(second, Err(SessionError::TokenMismatch)));
}

#[test]
fn rotation_moves_to_the_next_generation() {
    assert_eq!(successor_token(4, 3), (1u128 << 64) + 4);
    assert_eq!(successor_token(3, 3), (1u128 << 64) + 3);
    assert_eq!(successor_token((7u128 << 64) + 5, (2u128 << 64) + 9), (3u128 << 64) + 5);
    let mut s = service();
    s.create_session_with(5, String::new(), 100, 1, 2).unwrap();
    let (next, _) = s.refresh_with(1, 2, 2, 100).unwrap();
    assert_eq!(next, (1u128 << 64) + 2);
    assert_eq!(s.find_session(1).unwrap().refresh_token, next);
    let (third, _) = s.refresh_with(1, next, 2, 100).unwrap();
    assert_eq!(third, (2u128 << 64) + 2);
    // the first token comes back as a random part, but not as a whole token
    assert!(matches!(s.refresh_with(1, 2, 2, 100), Err(SessionError::TokenMismatch)));
}

#[test]
fn random_sessions_start_at_generation_zero() {
    let mut s = service();
    let (_, rt, _) = s.create_session(5, String::new(), 100).unwrap();
    assert!(rt < (1u128 << 64));
}

#[test]
fn last_generation_cannot_rotate() {
    let mut s = service();
    s.create_session_with(5, String::new(), 100, 1, u128::MAX).unwrap();
    assert!(matches!(
        s.refresh_with(1, u128::MAX, 3, 100),
        Err(SessionError::RotationsExhausted)
    ));
    assert!(s.find_session(1).unwrap().revoked);
}

#[test]
fn revoke_then_refresh_always_fails() {
    let mut s = service();
    s.create_session_with(5, String::new(), 100, 1, 2).unwrap();
    s.revoke(1);
    assert!(s.find_session(1).unwrap().revoked);
    assert!(matches!(s.refresh_with(1, 2, 8, 100), Err(SessionError::SessionNotFound)));
    assert!(matches!(s.refresh_with(1, 3, 8, 100), Err(SessionError::SessionNotFound)));
    s.revoke(1);
    s.revoke(77);
    assert!(s.find_session(77).is_none());
}

#[test]
fn refresh_of_unknown_session_is_not_found() {
    let mut s = service();
    assert!(matches!(s.refresh(99, 1, 100), Err(SessionError::SessionNotFound)));
    assert!(s.find_session(99).is_none());
}

#[test]
fn identity_store() {
    let mut s = service();
    assert_eq!(s.register_user(identity(1)), Ok(()));
    assert_eq!(s.register_user(identity(1)), Err(IdentityError::Conflict));
    assert_eq!(s.resolve_identity(1).unwrap().email, "user1@example.com");
    assert!(matches!(s.resolve_identity(2), Err(IdentityError::NotFound)));
    let mut changed = identity(1);
    changed.name = String::from("renamed");
    assert_eq!(s.update_identity(changed), Ok(()));
    assert_eq!(s.resolve_identity(1).unwrap().name, "renamed");
    assert_eq!(s.update_identity(identity(3)), Err(IdentityError::NotFound));
}

#[test]
fn duplicate_email_is_conflict() {
    let mut s = service();
    assert_eq!(s.register_user(identity(1)), Ok(()));
    let mut twin = identity(2);
    twin.email = String::from("user1@example.com");
    assert_eq!(s.register_user(twin), Err(IdentityError::Conflict));
    assert!(matches!(s.resolve_identity(2), Err(IdentityError::NotFound)));
    assert_eq!(s.register_user(identity(2)), Ok(()));
    let mut steal = identity(2);
    steal.email = String::from("user1@example.com");
    assert_eq!(s.update_identity(steal), Err(IdentityError::Conflict));
    assert_eq!(s.resolve_identity(2).unwrap().email, "user2@example.com");
    let mut moved = identity(1);
    moved.email = String::from("new@example.com");
    assert_eq!(s.update_identity(moved), Ok(()));
    // the old address is free again
    let mut reuse = identity(3);
    reuse.email = String::from("user1@example.com");
    assert_eq!(s.register_user(reuse), Ok(()));
}
