//! Refresh sessions: one record per signed-in device, holding the single
//! refresh token that is currently valid for it, plus the identity store
//! that sessions and access tokens refer to.

use vstd::prelude::*;
use vstd::hash_map::{HashMapWithView, StringHashMap};

use crate::token::{token_text, TokenCodec};

verus! {

broadcast use vstd::std_specs::hash::axiom_u128_obeys_hash_table_key_model;

/// Relies on `uuid::Uuid::new_v4` and `Uuid::as_u128`: a fresh random
/// 128-bit value. Nothing is promised of which value comes back.
#[verifier::external_body]
fn random_id() -> (r: u128) {
    uuid::Uuid::new_v4().as_u128()
}

/// One authenticated device or login.
pub struct Session {
    pub id: u128,
    pub user_id: u128,
    pub refresh_token: u128,
    pub device_fingerprint: String,
    pub created_at: u64,
    pub expires_at: u64,
    pub revoked: bool,
}

impl Session {
    pub fn duplicate(&self) -> (r: Session)
        ensures
            r == *self,
    {
        Session {
            id: self.id,
            user_id: self.user_id,
            refresh_token: self.refresh_token,
            device_fingerprint: self.device_fingerprint.clone(),
            created_at: self.created_at,
            expires_at: self.expires_at,
            revoked: self.revoked,
        }
    }
}

/// A registered user, as far as this crate reads it.
pub struct Identity {
    pub id: u128,
    pub email: String,
    pub name: String,
    pub password_hash: String,
}

impl Identity {
    pub fn duplicate(&self) -> (r: Identity)
        ensures
            r == *self,
    {
        Identity {
            id: self.id,
            email: self.email.clone(),
            name: self.name.clone(),
            password_hash: self.password_hash.clone(),
        }
    }
}

#[derive(Debug, Clone, Copy, PartialEq, Eq, Structural)]
pub enum SessionError {
    /// No live session under that id: absent or revoked.
    SessionNotFound,
    /// The presented refresh token is not the current one; the session has
    /// been revoked in response.
    TokenMismatch,
    /// The session's refresh token has been rotated as often as its
    /// generation counter allows; the session has been revoked.
    RotationsExhausted,
    /// A freshly drawn session id is already in use.
    Internal,
}

#[derive(Debug, Clone, Copy, PartialEq, Eq, Structural)]
pub enum IdentityError {
    NotFound,
    Conflict,
}

pub open spec fn revoked(s: Session) -> Session {
    Session { revoked: true, ..s }
}

pub open spec fn rotated(s: Session, fresh: u128) -> Session {
    Session { refresh_token: fresh, ..s }
}

/// Whether a refresh of `sid` presenting `presented` succeeds, and if not why.
pub open spec fn refresh_outcome(m: Map<u128, Session>, sid: u128, presented: u128) -> Result<
    (),
    SessionError,
> {
    if !m.contains_key(sid) || m[sid].revoked {
        Err(SessionError::SessionNotFound)
    } else if m[sid].refresh_token != presented {
        Err(SessionError::TokenMismatch)
    } else if generation(presented) >= LAST_GENERATION {
        Err(SessionError::RotationsExhausted)
    } else {
        Ok(())
    }
}

/// The sessions after that refresh, `fresh` being the replacement token.
pub open spec fn refresh_state(m: Map<u128, Session>, sid: u128, presented: u128, fresh: u128) -> Map<
    u128,
    Session,
> {
    match refresh_outcome(m, sid, presented) {
        Ok(()) => m.insert(sid, rotated(m[sid], fresh)),
        Err(SessionError::SessionNotFound) => m,
        Err(_) => m.insert(sid, revoked(m[sid])),
    }
}

pub open spec fn revoke_state(m: Map<u128, Session>, sid: u128) -> Map<u128, Session> {
    if m.contains_key(sid) {
        m.insert(sid, revoked(m[sid]))
    } else {
        m
    }
}

/// One more than the largest random part of a refresh token.
pub const GENERATION_UNIT: u128 = 0x1_0000_0000_0000_0000;

/// The largest generation a refresh token can carry.
pub const LAST_GENERATION: u128 = 0xFFFF_FFFF_FFFF_FFFF;

/// A refresh token's generation: how many rotations lie behind it. It sits
/// above the token's 64 random bits.
pub open spec fn generation(t: u128) -> nat {
    t as nat / GENERATION_UNIT as nat
}

/// `fresh` is a valid replacement for `presented`: one generation later.
pub open spec fn is_successor(fresh: u128, presented: u128) -> bool {
    generation(fresh) == generation(presented) + 1
}

/// The token that replaces `presented`: the next generation, with the low
/// 64 bits of `drawn` as its random part.
pub fn successor_token(drawn: u128, presented: u128) -> (r: u128)
    requires
        generation(presented) < LAST_GENERATION,
    ensures
        is_successor(r, presented),
        r as nat % GENERATION_UNIT as nat == drawn as nat % GENERATION_UNIT as nat,
{
    let g = presented / GENERATION_UNIT;
    let low = drawn % GENERATION_UNIT;
    proof {
        let b = GENERATION_UNIT as int;
        assert((g + 1) * b + low <= (LAST_GENERATION as int) * b + (b - 1)) by (nonlinear_arith)
            requires
                g + 1 <= LAST_GENERATION,
                low < b,
        ;
        vstd::arithmetic::div_mod::lemma_fundamental_div_mod_converse(
            (g + 1) * b + low,
            b,
            g + 1,
            low as int,
        );
    }
    (g + 1) * GENERATION_UNIT + low
}

/// Some stored identity has this e-mail address.
pub open spec fn email_taken(users: Map<u128, Identity>, email: Seq<char>) -> bool {
    exists|k: u128| users.contains_key(k) && #[trigger] users[k].email@ == email
}

/// Some stored identity other than `id` has this e-mail address.
pub open spec fn email_taken_by_other(users: Map<u128, Identity>, email: Seq<char>, id: u128) -> bool {
    exists|k: u128| k != id && users.contains_key(k) && #[trigger] users[k].email@ == email
}

/// Creates, rotates and revokes sessions, and resolves identities.
pub struct SessionService {
    codec: TokenCodec,
    session_ttl: u64,
    sessions: HashMapWithView<u128, Session>,
    users: HashMapWithView<u128, Identity>,
    /// The id of the user registered under each e-mail address.
    emails: StringHashMap<u128>,
}

impl SessionService {
    pub closed spec fn token_codec(&self) -> TokenCodec {
        self.codec
    }

    /// Session lifetime in seconds.
    pub closed spec fn session_lifetime(&self) -> u64 {
        self.session_ttl
    }

    pub closed spec fn session_map(&self) -> Map<u128, Session> {
        self.sessions@
    }

    pub closed spec fn user_map(&self) -> Map<u128, Identity> {
        self.users@
    }

    /// Every record is filed under its own id, and the e-mail index lists
    /// exactly the users' addresses.
    pub closed spec fn wf(&self) -> bool {
        &&& forall|k: u128| #[trigger] self.sessions@.contains_key(k) ==> self.sessions@[k].id == k
        &&& forall|k: u128| #[trigger] self.users@.contains_key(k) ==> self.users@[k].id == k
        &&& forall|k: u128| #[trigger]
            self.users@.contains_key(k) ==> self.emails@.contains_key(self.users@[k].email@)
                && self.emails@[self.users@[k].email@] == k
        &&& forall|e: Seq<char>| #[trigger]
            self.emails@.contains_key(e) ==> self.users@.contains_key(self.emails@[e])
                && self.users@[self.emails@[e]].email@ == e
    }

    /// Whether access tokens for `now` can be stamped without overflow.
    pub open spec fn time_fits(&self, now: u64) -> bool {
        &&& now + self.token_codec().lifetime() <= u64::MAX
        &&& now + self.session_lifetime() <= u64::MAX
    }

    pub fn new(codec: TokenCodec, session_ttl: u64) -> (r: SessionService)
        ensures
            r.wf(),
            r.token_codec() == codec,
            r.session_lifetime() == session_ttl,
            r.session_map() == Map::<u128, Session>::empty(),
            r.user_map() == Map::<u128, Identity>::empty(),
    {
        SessionService {
            codec,
            session_ttl,
            sessions: HashMapWithView::new(),
            users: HashMapWithView::new(),
            emails: StringHashMap::new(),
        }
    }

    pub fn session_ttl(&self) -> (r: u64)
        ensures
            r == self.session_lifetime(),
    {
        self.session_ttl
    }

    pub fn codec(&self) -> (r: &TokenCodec)
        ensures
            *r == self.token_codec(),
    {
        &self.codec
    }

    /// Adds an identity to the store. An id or an e-mail address that is
    /// already registered is a conflict.
    pub fn register_user(&mut self, identity: Identity) -> (r: Result<(), IdentityError>)
        requires
            old(self).wf(),
        ensures
            final(self).wf(),
            final(self).token_codec() == old(self).token_codec(),
            final(self).session_lifetime() == old(self).session_lifetime(),
            final(self).session_map() == old(self).session_map(),
            r is Err <==> old(self).user_map().contains_key(identity.id) || email_taken(
                old(self).user_map(),
                identity.email@,
            ),
            r is Err ==> r == Err::<(), IdentityError>(IdentityError::Conflict) && final(self).user_map()
                == old(self).user_map(),
            r is Ok ==> final(self).user_map() == old(self).user_map().insert(identity.id, identity),
    {
        if self.users.contains_key(&identity.id) {
            return Err(IdentityError::Conflict);
        }
        if self.emails.contains_key(identity.email.as_str()) {
            proof {
                let k = self.emails@[identity.email@];
                assert(self.users@.contains_key(k) && self.users@[k].email@ == identity.email@);
            }
            return Err(IdentityError::Conflict);
        }
        proof {
            if email_taken(self.users@, identity.email@) {
                let k = choose|k: u128|
                    self.users@.contains_key(k) && #[trigger] self.users@[k].email@ == identity.email@;
                assert(self.emails@.contains_key(self.users@[k].email@));
            }
        }
        let id = identity.id;
        self.emails.insert(identity.email.clone(), id);
        self.users.insert(id, identity);
        Ok(())
    }

    /// Replaces a stored identity. An id not in the store is not found; an
    /// e-mail address registered to another user is a conflict.
    pub fn update_identity(&mut self, identity: Identity) -> (r: Result<(), IdentityError>)
        requires
            old(self).wf(),
        ensures
            final(self).wf(),
            final(self).token_codec() == old(self).token_codec(),
            final(self).session_lifetime() == old(self).session_lifetime(),
            final(self).session_map() == old(self).session_map(),
            !old(self).user_map().contains_key(identity.id) ==> r == Err::<(), IdentityError>(
                IdentityError::NotFound,
            ),
            old(self).user_map().contains_key(identity.id) ==> (r is Err <==> email_taken_by_other(
                old(self).user_map(),
                identity.email@,
                identity.id,
            )),
            old(self).user_map().contains_key(identity.id) && r is Err ==> r == Err::<
                (),
                IdentityError,
            >(IdentityError::Conflict),
            r is Err ==> final(self).user_map() == old(self).user_map(),
            r is Ok ==> final(self).user_map() == old(self).user_map().insert(identity.id, identity),
    {
        let old_email = match self.users.get(&identity.id) {
            Some(i) => i.email.clone(),
            None => {
                return Err(IdentityError::NotFound);
            },
        };
        match self.emails.get(identity.email.as_str()) {
            Some(k) => {
                if *k != identity.id {
                    proof {
                        assert(self.users@.contains_key(*k) && self.users@[*k].email@
                            == identity.email@);
                    }
                    return Err(IdentityError::Conflict);
                }
            },
            None => {},
        }
        proof {
            if email_taken_by_other(self.users@, identity.email@, identity.id) {
                let k = choose|k: u128|
                    k != identity.id && self.users@.contains_key(k) && #[trigger] self.users@[k].email@
                        == identity.email@;
                assert(self.emails@.contains_key(self.users@[k].email@));
            }
        }
        let ghost users0 = self.users@;
        let ghost emails0 = self.emails@;
        let id = identity.id;
        self.emails.remove(old_email.as_str());
        self.emails.insert(identity.email.clone(), id);
        self.users.insert(id, identity);
        proof {
            assert forall|k: u128| #[trigger] self.users@.contains_key(k) implies self.emails@.contains_key(
                self.users@[k].email@,
            ) && self.emails@[self.users@[k].email@] == k by {
                if k != id {
                    assert(users0.contains_key(k));
                    assert(emails0[users0[k].email@] == k);
                }
            }
            assert forall|e: Seq<char>| #[trigger] self.emails@.contains_key(e) implies self.users@.contains_key(
                self.emails@[e],
            ) && self.users@[self.emails@[e]].email@ == e by {
                if e != self.users@[id].email@ {
                    assert(e != old_email@);
                    assert(emails0.contains_key(e));
                    let k = emails0[e];
                    assert(users0.contains_key(k) && users0[k].email@ == e);
                    assert(k != id);
                }
            }
        }
        Ok(())
    }

    /// The identity filed under `user_id`.
    pub fn resolve_identity(&self, user_id: u128) -> (r: Result<Identity, IdentityError>)
        ensures
            match r {
                Ok(i) => self.user_map().contains_key(user_id) && i == self.user_map()[user_id],
                Err(e) => !self.user_map().contains_key(user_id) && e == IdentityError::NotFound,
            },
    {
        match self.users.get(&user_id) {
            Some(i) => Ok(i.duplicate()),
            None => Err(IdentityError::NotFound),
        }
    }

    /// The session filed under `session_id`, live or revoked.
    pub fn find_session(&self, session_id: u128) -> (r: Option<Session>)
        ensures
            match r {
                Some(s) => self.session_map().contains_key(session_id) && s == self.session_map()[session_id],
                None => !self.session_map().contains_key(session_id),
            },
    {
        match self.sessions.get(&session_id) {
            Some(s) => Some(s.duplicate()),
            None => None,
        }
    }

    /// Opens a session with the given id and refresh token, and issues an
    /// access token for the user.
    pub fn create_session_with(
        &mut self,
        user_id: u128,
        device_fingerprint: String,
        now: u64,
        session_id: u128,
        refresh_token: u128,
    ) -> (r: Result<(Session, u128, Vec<u8>), SessionError>)
        requires
            old(self).wf(),
            old(self).time_fits(now),
        ensures
            final(self).wf(),
            final(self).token_codec() == old(self).token_codec(),
            final(self).session_lifetime() == old(self).session_lifetime(),
            final(self).user_map() == old(self).user_map(),
            r is Err <==> old(self).session_map().contains_key(session_id),
            r is Err ==> r == Err::<(Session, u128, Vec<u8>), SessionError>(SessionError::Internal)
                && final(self).session_map() == old(self).session_map(),
            r matches Ok((s, rt, tok)) ==> {
                &&& s == (Session {
                    id: session_id,
                    user_id,
                    refresh_token,
                    device_fingerprint,
                    created_at: now,
                    expires_at: (now + old(self).session_lifetime()) as u64,
                    revoked: false,
                })
                &&& rt == refresh_token
                &&& final(self).session_map() == old(self).session_map().insert(session_id, s)
                &&& tok@ == token_text(
                    old(self).token_codec().secret(),
                    user_id,
                    now,
                    (now + old(self).token_codec().lifetime()) as u64,
                )
            },
    {
        if self.sessions.contains_key(&session_id) {
            return Err(SessionError::Internal);
        }
        let session = Session {
            id: session_id,
            user_id,
            refresh_token,
            device_fingerprint,
            created_at: now,
            expires_at: now + self.session_ttl,
            revoked: false,
        };
        let stored = session.duplicate();
        self.sessions.insert(session_id, stored);
        let token = self.codec.issue(user_id, now);
        Ok((session, refresh_token, token))
    }

    /// Opens a session with a random id and a random first-generation
    /// refresh token.
    pub fn create_session(&mut self, user_id: u128, device_fingerprint: String, now: u64) -> (r:
        Result<(Session, u128, Vec<u8>), SessionError>)
        requires
            old(self).wf(),
            old(self).time_fits(now),
        ensures
            final(self).wf(),
            final(self).token_codec() == old(self).token_codec(),
            final(self).session_lifetime() == old(self).session_lifetime(),
            final(self).user_map() == old(self).user_map(),
            r is Err ==> exists|k: u128| #[trigger] old(self).session_map().contains_key(k),
            r is Err ==> r == Err::<(Session, u128, Vec<u8>), SessionError>(SessionError::Internal)
                && final(self).session_map() == old(self).session_map(),
            r matches Ok((s, rt, tok)) ==> {
                &&& !old(self).session_map().contains_key(s.id)
                &&& s == (Session {
                    id: s.id,
                    user_id,
                    refresh_token: rt,
                    device_fingerprint,
                    created_at: now,
                    expires_at: (now + old(self).session_lifetime()) as u64,
                    revoked: false,
                })
                &&& generation(rt) == 0
                &&& final(self).session_map() == old(self).session_map().insert(s.id, s)
                &&& tok@ == token_text(
                    old(self).token_codec().secret(),
                    user_id,
                    now,
                    (now + old(self).token_codec().lifetime()) as u64,
                )
            },
    {
        let session_id = random_id();
        let refresh_token = random_id() % GENERATION_UNIT;
        self.create_session_with(user_id, device_fingerprint, now, session_id, refresh_token)
    }

    /// Compare-and-rotate: if `presented` is the current refresh token of the
    /// live session `session_id`, replaces it with its successor (next
    /// generation, random part from `drawn`) and issues an access token for
    /// the session's user. On a mismatch, or when no later generation
    /// exists, the session is revoked.
    pub fn refresh_with(&mut self, session_id: u128, presented: u128, drawn: u128, now: u64) -> (r:
        Result<(u128, Vec<u8>), SessionError>)
        requires
            old(self).wf(),
            old(self).time_fits(now),
        ensures
            final(self).wf(),
            final(self).token_codec() == old(self).token_codec(),
            final(self).session_lifetime() == old(self).session_lifetime(),
            final(self).user_map() == old(self).user_map(),
            match r {
                Ok((t, tok)) => {
                    &&& refresh_outcome(old(self).session_map(), session_id, presented) is Ok
                    &&& is_successor(t, presented)
                    &&& t as nat % GENERATION_UNIT as nat == drawn as nat % GENERATION_UNIT as nat
                    &&& final(self).session_map() == refresh_state(
                        old(self).session_map(),
                        session_id,
                        presented,
                        t,
                    )
                    &&& tok@ == token_text(
                        old(self).token_codec().secret(),
                        old(self).session_map()[session_id].user_id,
                        now,
                        (now + old(self).token_codec().lifetime()) as u64,
                    )
                },
                Err(e) => {
                    &&& refresh_outcome(old(self).session_map(), session_id, presented) == Err::<
                        (),
                        SessionError,
                    >(e)
                    &&& final(self).session_map() == refresh_state(
                        old(self).session_map(),
                        session_id,
                        presented,
                        presented,
                    )
                },
            },
    {
        let current = match self.sessions.get(&session_id) {
            Some(s) => s.duplicate(),
            None => {
                return Err(SessionError::SessionNotFound);
            },
        };
        if current.revoked {
            return Err(SessionError::SessionNotFound);
        }
        if current.refresh_token != presented {
            let mut closed = current;
            closed.revoked = true;
            self.sessions.insert(session_id, closed);
            return Err(SessionError::TokenMismatch);
        }
        if presented / GENERATION_UNIT >= LAST_GENERATION {
            let mut closed = current;
            closed.revoked = true;
            self.sessions.insert(session_id, closed);
            return Err(SessionError::RotationsExhausted);
        }
        let fresh = successor_token(drawn, presented);
        let user_id = current.user_id;
        let mut next = current;
        next.refresh_token = fresh;
        self.sessions.insert(session_id, next);
        let token = self.codec.issue(user_id, now);
        Ok((fresh, token))
    }

    /// `refresh_with` on a freshly drawn random value.
    pub fn refresh(&mut self, session_id: u128, presented: u128, now: u64) -> (r: Result<
        (u128, Vec<u8>),
        SessionError,
    >)
        requires
            old(self).wf(),
            old(self).time_fits(now),
        ensures
            final(self).wf(),
            final(self).token_codec() == old(self).token_codec(),
            final(self).session_lifetime() == old(self).session_lifetime(),
            final(self).user_map() == old(self).user_map(),
            match r {
                Ok((t, tok)) => {
                    &&& refresh_outcome(old(self).session_map(), session_id, presented) is Ok
                    &&& is_successor(t, presented)
                    &&& final(self).session_map() == refresh_state(
                        old(self).session_map(),
                        session_id,
                        presented,
                        t,
                    )
                    &&& tok@ == token_text(
                        old(self).token_codec().secret(),
                        old(self).session_map()[session_id].user_id,
                        now,
                        (now + old(self).token_codec().lifetime()) as u64,
                    )
                },
                Err(e) => {
                    &&& refresh_outcome(old(self).session_map(), session_id, presented) == Err::<
                        (),
                        SessionError,
                    >(e)
                    &&& final(self).session_map() == refresh_state(
                        old(self).session_map(),
                        session_id,
                        presented,
                        presented,
                    )
                },
            },
    {
        let drawn = random_id();
        self.refresh_with(session_id, presented, drawn, now)
    }

    /// Marks the session revoked; absent or already revoked sessions are
    /// left as they are.
    pub fn revoke(&mut self, session_id: u128)
        requires
            old(self).wf(),
        ensures
            final(self).wf(),
            final(self).token_codec() == old(self).token_codec(),
            final(self).session_lifetime() == old(self).session_lifetime(),
            final(self).user_map() == old(self).user_map(),
            final(self).session_map() == revoke_state(old(self).session_map(), session_id),
    {
        let current = match self.sessions.get(&session_id) {
            Some(s) => s.duplicate(),
            None => {
                return;
            },
        };
        let mut closed = current;
        closed.revoked = true;
        self.sessions.insert(session_id, closed);
    }
}

/// A session just opened accepts its refresh token exactly once: the first
/// refresh succeeds, a second one with the same token is a mismatch and
/// leaves the session revoked. (A token of the last generation cannot be
/// rotated at all; sessions open with generation zero.)
pub proof fn lemma_refresh_once(m: Map<u128, Session>, s: Session, fresh: u128, later: u128)
    requires
        !s.revoked,
        generation(s.refresh_token) < LAST_GENERATION,
        is_successor(fresh, s.refresh_token),
    ensures
        ({
            let m1 = m.insert(s.id, s);
            let m2 = refresh_state(m1, s.id, s.refresh_token, fresh);
            let m3 = refresh_state(m2, s.id, s.refresh_token, later);
            &&& refresh_outcome(m1, s.id, s.refresh_token) is Ok
            &&& refresh_outcome(m2, s.id, s.refresh_token) == Err::<(), SessionError>(
                SessionError::TokenMismatch,
            )
            &&& m3.contains_key(s.id)
            &&& m3[s.id].revoked
        }),
{
}

/// Two refreshes presenting the same token to the same session, one after
/// the other in either order, never both succeed.
pub proof fn lemma_refresh_not_twice(
    m: Map<u128, Session>,
    sid: u128,
    presented: u128,
    fresh: u128,
)
    requires
        is_successor(fresh, presented),
    ensures
        !(refresh_outcome(m, sid, presented) is Ok && refresh_outcome(
            refresh_state(m, sid, presented, fresh),
            sid,
            presented,
        ) is Ok),
{
}

/// Once a session is revoked, every refresh of it fails, whatever token is
/// presented, and the session stays revoked.
pub proof fn lemma_revoked_never_refreshes(
    m: Map<u128, Session>,
    sid: u128,
    presented: u128,
    fresh: u128,
)
    ensures
        refresh_outcome(revoke_state(m, sid), sid, presented) == Err::<(), SessionError>(
            SessionError::SessionNotFound,
        ),
        refresh_state(revoke_state(m, sid), sid, presented, fresh) == revoke_state(m, sid),
{
}

/// Nothing lowers a live record's token generation: `m2` is `m1` after any
/// number of the service's steps.
pub open spec fn keeps_generation(m1: Map<u128, Session>, m2: Map<u128, Session>, sid: u128) -> bool {
    m1.contains_key(sid) ==> m2.contains_key(sid) && generation(m2[sid].refresh_token) >= generation(
        m1[sid].refresh_token,
    )
}

/// Every step of the service keeps generations: a refresh (whose
/// replacement is a successor), a revocation, and opening a session under an
/// unused id; and steps compose.
pub proof fn lemma_steps_keep_generation(
    m: Map<u128, Session>,
    sid: u128,
    other: u128,
    presented: u128,
    fresh: u128,
    opened: Session,
)
    ensures
        is_successor(fresh, presented) ==> keeps_generation(
            m,
            refresh_state(m, other, presented, fresh),
            sid,
        ),
        keeps_generation(m, revoke_state(m, other), sid),
        !m.contains_key(opened.id) ==> keeps_generation(m, m.insert(opened.id, opened), sid),
        keeps_generation(m, m, sid),
{
}

pub proof fn lemma_keeps_generation_compose(
    m1: Map<u128, Session>,
    m2: Map<u128, Session>,
    m3: Map<u128, Session>,
    sid: u128,
)
    requires
        keeps_generation(m1, m2, sid),
        keeps_generation(m2, m3, sid),
    ensures
        keeps_generation(m1, m3, sid),
{
}

/// A refresh token, once rotated away, never validates again: after the
/// rotation, whatever steps follow, a refresh presenting it does not succeed.
pub proof fn lemma_rotated_token_never_returns(
    m0: Map<u128, Session>,
    sid: u128,
    presented: u128,
    fresh: u128,
    later: Map<u128, Session>,
)
    requires
        refresh_outcome(m0, sid, presented) is Ok,
        is_successor(fresh, presented),
        keeps_generation(refresh_state(m0, sid, presented, fresh), later, sid),
    ensures
        !(refresh_outcome(later, sid, presented) is Ok),
{
}

} // verus!
