//! The user endpoints' logic, on plain request values: sign-up, sign-in,
//! who-am-I, profile update, refresh and sign-out.

use vstd::prelude::*;

use crate::gate::{
    authenticated_user, header_view, parse_refresh_cookie, refresh_cookie, refresh_cookie_fields,
    refresh_cookie_text, RequiredAuthentication, UserAgent,
};
use crate::session::{email_taken, email_taken_by_other, is_successor, refresh_outcome, refresh_state, revoke_state, Identity, SessionService};
use crate::token::token_text;

verus! {

/// What an endpoint reports to its caller.
#[derive(Debug, Clone, Copy, PartialEq, Eq, Structural)]
pub enum ApiError {
    /// Any authentication failure, with no detail.
    Unauthorized,
    /// The identity is already registered.
    Conflict,
    /// A failure not caused by the request.
    Internal,
}

pub struct UserController;

impl UserController {
    /// Registers a new identity, unless its id or e-mail address is taken.
    pub fn signup_user_endpoint(services: &mut SessionService, identity: Identity) -> (r: Result<
        Identity,
        ApiError,
    >)
        requires
            old(services).wf(),
        ensures
            final(services).wf(),
            final(services).token_codec() == old(services).token_codec(),
            final(services).session_lifetime() == old(services).session_lifetime(),
            final(services).session_map() == old(services).session_map(),
            match r {
                Ok(i) => !old(services).user_map().contains_key(identity.id) && !email_taken(
                    old(services).user_map(),
                    identity.email@,
                ) && i == identity && final(services).user_map() == old(services).user_map().insert(
                    identity.id,
                    identity,
                ),
                Err(e) => (old(services).user_map().contains_key(identity.id) || email_taken(
                    old(services).user_map(),
                    identity.email@,
                )) && e == ApiError::Conflict && final(services).user_map() == old(
                    services,
                ).user_map(),
            },
    {
        let copy = identity.duplicate();
        match services.register_user(identity) {
            Ok(()) => Ok(copy),
            Err(_) => Err(ApiError::Conflict),
        }
    }

    /// Opens a session for a user whose credentials were accepted, and
    /// returns the identity, the refresh cookie value and an access token.
    pub fn signin_user_endpoint(
        services: &mut SessionService,
        user_id: u128,
        user_agent: UserAgent,
        now: u64,
    ) -> (r: Result<(Identity, Vec<u8>, Vec<u8>), ApiError>)
        requires
            old(services).wf(),
            old(services).time_fits(now),
        ensures
            final(services).wf(),
            final(services).token_codec() == old(services).token_codec(),
            final(services).session_lifetime() == old(services).session_lifetime(),
            final(services).user_map() == old(services).user_map(),
            !old(services).user_map().contains_key(user_id) ==> r == Err::<
                (Identity, Vec<u8>, Vec<u8>),
                ApiError,
            >(ApiError::Unauthorized),
            r is Err ==> final(services).session_map() == old(services).session_map(),
            old(services).user_map().contains_key(user_id) && r is Err ==> exists|k: u128|
                #[trigger] old(services).session_map().contains_key(k),
            old(services).user_map().contains_key(user_id) && r is Err ==> r == Err::<
                (Identity, Vec<u8>, Vec<u8>),
                ApiError,
            >(ApiError::Internal),
            r matches Ok((i, cookie, tok)) ==> {
                &&& old(services).user_map().contains_key(user_id)
                &&& i == old(services).user_map()[user_id]
                &&& exists|sid: u128, rt: u128|
                    {
                        &&& !old(services).session_map().contains_key(sid)
                        &&& final(services).session_map() == old(services).session_map().insert(
                            sid,
                            final(services).session_map()[sid],
                        )
                        &&& final(services).session_map()[sid].user_id == user_id
                        &&& final(services).session_map()[sid].refresh_token == rt
                        &&& !final(services).session_map()[sid].revoked
                        &&& final(services).session_map()[sid].created_at == now
                        &&& (user_agent.0 matches Some(f)
                            ==> final(services).session_map()[sid].device_fingerprint == f)
                        &&& #[trigger] refresh_cookie_text(sid, rt) == cookie@
                    }
                &&& tok@ == token_text(
                    old(services).token_codec().secret(),
                    user_id,
                    now,
                    (now + old(services).token_codec().lifetime()) as u64,
                )
            },
    {
        let identity = match services.resolve_identity(user_id) {
            Ok(i) => i,
            Err(_) => {
                return Err(ApiError::Unauthorized);
            },
        };
        match services.create_session(user_id, user_agent.fingerprint(), now) {
            Ok((session, refresh_token, token)) => {
                let cookie = refresh_cookie(session.id, refresh_token);
                Ok((identity, cookie, token))
            },
            Err(_) => Err(ApiError::Internal),
        }
    }

    /// The identity of the authenticated caller.
    pub fn get_current_user_endpoint(
        services: &SessionService,
        authorization: Option<&[u8]>,
        now: u64,
    ) -> (r: Result<Identity, ApiError>)
        requires
            services.wf(),
        ensures
            match authenticated_user(
                services.token_codec().secret(),
                services.user_map(),
                header_view(authorization),
                now,
            ) {
                Some(u) => r == Ok::<Identity, ApiError>(services.user_map()[u]),
                None => r == Err::<Identity, ApiError>(ApiError::Unauthorized),
            },
    {
        let auth = match RequiredAuthentication::from_header(services, authorization, now) {
            Ok(a) => a,
            Err(_) => {
                return Err(ApiError::Unauthorized);
            },
        };
        match services.resolve_identity(auth.0) {
            Ok(i) => Ok(i),
            Err(_) => Err(ApiError::Unauthorized),
        }
    }

    /// Changes the caller's name and/or email. Nothing changes unless the
    /// request is authenticated and the new address is not another user's.
    pub fn update_user_endpoint(
        services: &mut SessionService,
        authorization: Option<&[u8]>,
        now: u64,
        name: Option<String>,
        email: Option<String>,
    ) -> (r: Result<Identity, ApiError>)
        requires
            old(services).wf(),
        ensures
            final(services).wf(),
            final(services).token_codec() == old(services).token_codec(),
            final(services).session_lifetime() == old(services).session_lifetime(),
            final(services).session_map() == old(services).session_map(),
            match authenticated_user(
                old(services).token_codec().secret(),
                old(services).user_map(),
                header_view(authorization),
                now,
            ) {
                Some(u) => {
                    let before = old(services).user_map()[u];
                    let after = Identity {
                        id: u,
                        email: match email {
                            Some(e) => e,
                            None => before.email,
                        },
                        name: match name {
                            Some(n) => n,
                            None => before.name,
                        },
                        password_hash: before.password_hash,
                    };
                    if email_taken_by_other(old(services).user_map(), after.email@, u) {
                        &&& r == Err::<Identity, ApiError>(ApiError::Conflict)
                        &&& final(services).user_map() == old(services).user_map()
                    } else {
                        &&& r == Ok::<Identity, ApiError>(after)
                        &&& final(services).user_map() == old(services).user_map().insert(u, after)
                    }
                },
                None => {
                    &&& r == Err::<Identity, ApiError>(ApiError::Unauthorized)
                    &&& final(services).user_map() == old(services).user_map()
                },
            },
    {
        let auth = match RequiredAuthentication::from_header(services, authorization, now) {
            Ok(a) => a,
            Err(_) => {
                return Err(ApiError::Unauthorized);
            },
        };
        let current = match services.resolve_identity(auth.0) {
            Ok(i) => i,
            Err(_) => {
                return Err(ApiError::Unauthorized);
            },
        };
        let updated = Identity {
            id: auth.0,
            email: match email {
                Some(e) => e,
                None => current.email,
            },
            name: match name {
                Some(n) => n,
                None => current.name,
            },
            password_hash: current.password_hash,
        };
        let reply = updated.duplicate();
        match services.update_identity(updated) {
            Ok(()) => Ok(reply),
            Err(_) => Err(ApiError::Conflict),
        }
    }

    /// Exchanges the refresh cookie for a rotated cookie and a new access
    /// token, returning the session's identity as well. A session whose user
    /// has since been deleted is still rotated, but the request is refused.
    pub fn refresh_user_endpoint(services: &mut SessionService, cookie: Option<&[u8]>, now: u64) -> (r:
        Result<(Identity, Vec<u8>, Vec<u8>), ApiError>)
        requires
            old(services).wf(),
            old(services).time_fits(now),
        ensures
            final(services).wf(),
            final(services).token_codec() == old(services).token_codec(),
            final(services).session_lifetime() == old(services).session_lifetime(),
            final(services).user_map() == old(services).user_map(),
            match header_view(cookie) {
                None => r == Err::<(Identity, Vec<u8>, Vec<u8>), ApiError>(ApiError::Unauthorized)
                    && final(services).session_map() == old(services).session_map(),
                Some(c) => match refresh_cookie_fields(c) {
                    None => r == Err::<(Identity, Vec<u8>, Vec<u8>), ApiError>(
                        ApiError::Unauthorized,
                    ) && final(services).session_map() == old(services).session_map(),
                    Some((sid, rt)) => (refresh_outcome(old(services).session_map(), sid, rt) is Ok
                        && old(services).user_map().contains_key(
                        old(services).session_map()[sid].user_id,
                    ) ==> r is Ok) && match r {
                        Ok((i, next_cookie, tok)) => {
                            let user_id = old(services).session_map()[sid].user_id;
                            &&& refresh_outcome(old(services).session_map(), sid, rt) is Ok
                            &&& old(services).user_map().contains_key(user_id)
                            &&& i == old(services).user_map()[user_id]
                            &&& exists|t: u128|
                                {
                                    &&& is_successor(t, rt)
                                    &&& #[trigger] refresh_cookie_text(sid, t) == next_cookie@
                                    &&& final(services).session_map() == refresh_state(
                                        old(services).session_map(),
                                        sid,
                                        rt,
                                        t,
                                    )
                                }
                            &&& tok@ == token_text(
                                old(services).token_codec().secret(),
                                user_id,
                                now,
                                (now + old(services).token_codec().lifetime()) as u64,
                            )
                        },
                        Err(e) => {
                            &&& e == ApiError::Unauthorized
                            &&& exists|t: u128|
                                #[trigger] refresh_state(old(services).session_map(), sid, rt, t)
                                    == final(services).session_map()
                            &&& refresh_outcome(old(services).session_map(), sid, rt) is Err
                                ==> final(services).session_map() == refresh_state(
                                old(services).session_map(),
                                sid,
                                rt,
                                rt,
                            )
                        },
                    },
                },
            },
    {
        let value = match cookie {
            Some(c) => c,
            None => {
                return Err(ApiError::Unauthorized);
            },
        };
        let (session_id, presented) = match parse_refresh_cookie(value) {
            Some(f) => f,
            None => {
                return Err(ApiError::Unauthorized);
            },
        };
        let (next, token) = match services.refresh(session_id, presented, now) {
            Ok(rotated) => rotated,
            Err(_) => {
                return Err(ApiError::Unauthorized);
            },
        };
        let user_id = match services.find_session(session_id) {
            Some(s) => s.user_id,
            None => {
                return Err(ApiError::Unauthorized);
            },
        };
        match services.resolve_identity(user_id) {
            Ok(identity) => Ok((identity, refresh_cookie(session_id, next), token)),
            Err(_) => Err(ApiError::Unauthorized),
        }
    }

    /// Revokes the session the refresh cookie names. Revoking an absent or
    /// already revoked session succeeds; a missing or unreadable cookie does not.
    pub fn signout_user_endpoint(services: &mut SessionService, cookie: Option<&[u8]>) -> (r: Result<
        (),
        ApiError,
    >)
        requires
            old(services).wf(),
        ensures
            final(services).wf(),
            final(services).token_codec() == old(services).token_codec(),
            final(services).session_lifetime() == old(services).session_lifetime(),
            final(services).user_map() == old(services).user_map(),
            match header_view(cookie) {
                Some(c) => match refresh_cookie_fields(c) {
                    Some((sid, _)) => r is Ok && final(services).session_map() == revoke_state(
                        old(services).session_map(),
                        sid,
                    ),
                    None => r == Err::<(), ApiError>(ApiError::Unauthorized)
                        && final(services).session_map() == old(services).session_map(),
                },
                None => r == Err::<(), ApiError>(ApiError::Unauthorized) && final(services).session_map()
                    == old(services).session_map(),
            },
    {
        let value = match cookie {
            Some(c) => c,
            None => {
                return Err(ApiError::Unauthorized);
            },
        };
        match parse_refresh_cookie(value) {
            Some((session_id, _)) => {
                services.revoke(session_id);
                Ok(())
            },
            None => Err(ApiError::Unauthorized),
        }
    }
}

} // verus!
