use vstd::prelude::*;

use std::collections::HashMap;

use crate::codec::{b64_decoding, b64_encoding, AuthService};

verus! {

broadcast use vstd::std_specs::hash::group_hash_axioms;

/// Server-side state of a registration ceremony, bound to one session.
#[derive(Debug)]
pub struct PendingRegistration {
    pub challenge: String,
    pub user_handle: String,
    pub username: String,
    pub email: String,
    pub created_at: i64,
}

/// Server-side state of a login ceremony, bound to one session.
#[derive(Debug)]
pub struct PendingLogin {
    pub challenge: String,
    pub username: String,
    pub created_at: i64,
}

/// Short-lived ceremony state, keyed by session identity. At most one
/// pending ceremony of each kind exists per session; beginning a new one
/// overwrites the prior one, and taking one removes it, so a stored
/// challenge can be consumed at most once.
#[derive(Debug)]
pub struct CeremonyStore {
    pub registrations: HashMap<u64, PendingRegistration>,
    pub logins: HashMap<u64, PendingLogin>,
}

impl CeremonyStore {
    /// An empty store: no session has a pending ceremony.
    pub fn new() -> (r: CeremonyStore)
        ensures
            r.registrations@ == Map::<u64, PendingRegistration>::empty(),
            r.logins@ == Map::<u64, PendingLogin>::empty(),
    {
        CeremonyStore { registrations: HashMap::new(), logins: HashMap::new() }
    }

    /// Begin a registration ceremony: draw a fresh challenge and user
    /// handle, store them with the claimed identity under the session key
    /// (overwriting any prior pending registration), and hand back the
    /// encoded challenge and handle for the ceremony descriptor.
    pub fn begin_registration(
        &mut self,
        session_id: u64,
        username: &str,
        email: &str,
        now: i64,
    ) -> (r: (String, String))
        ensures
            exists|c: Seq<u8>|
                c.len() == 32 && r.0@ == b64_encoding(c) && b64_decoding(r.0@) == Some(c),
            exists|h: Seq<u8>|
                h.len() == 16 && r.1@ == b64_encoding(h) && b64_decoding(r.1@) == Some(h),
            final(self).registrations@ == old(self).registrations@.insert(
                session_id,
                final(self).registrations@[session_id],
            ),
            final(self).registrations@.contains_key(session_id),
            ({
                let p = final(self).registrations@[session_id];
                p.challenge@ == r.0@ && p.user_handle@ == r.1@ && p.username@ == username@
                    && p.email@ == email@ && p.created_at == now
            }),
            final(self).logins@ == old(self).logins@,
    {
        let challenge_bytes = AuthService::generate_challenge();
        let handle_bytes = AuthService::generate_user_id();
        let challenge = AuthService::encode_base64(challenge_bytes.as_slice());
        let user_handle = AuthService::encode_base64(handle_bytes.as_slice());
        let pending = PendingRegistration {
            challenge: challenge.clone(),
            user_handle: user_handle.clone(),
            username: username.to_owned(),
            email: email.to_owned(),
            created_at: now,
        };
        self.registrations.insert(session_id, pending);
        (challenge, user_handle)
    }

    /// Begin a login ceremony: draw a fresh challenge, store it with the
    /// target username under the session key (overwriting any prior
    /// pending login), and hand back the encoded challenge.
    pub fn begin_login(&mut self, session_id: u64, username: &str, now: i64) -> (r: String)
        ensures
            exists|c: Seq<u8>|
                c.len() == 32 && r@ == b64_encoding(c) && b64_decoding(r@) == Some(c),
            final(self).logins@ == old(self).logins@.insert(
                session_id,
                final(self).logins@[session_id],
            ),
            final(self).logins@.contains_key(session_id),
            ({
                let p = final(self).logins@[session_id];
                p.challenge@ == r@ && p.username@ == username@ && p.created_at == now
            }),
            final(self).registrations@ == old(self).registrations@,
    {
        let challenge_bytes = AuthService::generate_challenge();
        let challenge = AuthService::encode_base64(challenge_bytes.as_slice());
        let pending = PendingLogin {
            challenge: challenge.clone(),
            username: username.to_owned(),
            created_at: now,
        };
        self.logins.insert(session_id, pending);
        challenge
    }

    /// Atomically retrieve and remove the pending registration of a
    /// session, if there is one.
    pub fn take_pending_registration(&mut self, session_id: u64) -> (r: Option<
        PendingRegistration,
    >)
        ensures
            final(self).logins@ == old(self).logins@,
            match r {
                Some(p) => {
                    &&& old(self).registrations@.contains_key(session_id)
                    &&& p == old(self).registrations@[session_id]
                    &&& final(self).registrations@ == old(self).registrations@.remove(session_id)
                },
                None => {
                    &&& !old(self).registrations@.contains_key(session_id)
                    &&& final(self).registrations@ == old(self).registrations@
                },
            },
    {
        let r = self.registrations.remove(&session_id);
        proof {
            if r is None {
                assert(self.registrations@ =~= old(self).registrations@);
            }
        }
        r
    }

    /// Atomically retrieve and remove the pending login of a session, if
    /// there is one.
    pub fn take_pending_login(&mut self, session_id: u64) -> (r: Option<PendingLogin>)
        ensures
            final(self).registrations@ == old(self).registrations@,
            match r {
                Some(p) => {
                    &&& old(self).logins@.contains_key(session_id)
                    &&& p == old(self).logins@[session_id]
                    &&& final(self).logins@ == old(self).logins@.remove(session_id)
                },
                None => {
                    &&& !old(self).logins@.contains_key(session_id)
                    &&& final(self).logins@ == old(self).logins@
                },
            },
    {
        let r = self.logins.remove(&session_id);
        proof {
            if r is None {
                assert(self.logins@ =~= old(self).logins@);
            }
        }
        r
    }

    /// Put a pending registration back after a failed completion attempt,
    /// leaving the ceremony intact for a retry.
    pub fn restore_registration(&mut self, session_id: u64, pending: PendingRegistration)
        ensures
            final(self).registrations@ == old(self).registrations@.insert(session_id, pending),
            final(self).logins@ == old(self).logins@,
    {
        self.registrations.insert(session_id, pending);
    }

    /// Put a pending login back after a failed completion attempt, leaving
    /// the ceremony intact for a retry.
    pub fn restore_login(&mut self, session_id: u64, pending: PendingLogin)
        ensures
            final(self).logins@ == old(self).logins@.insert(session_id, pending),
            final(self).registrations@ == old(self).registrations@,
    {
        self.logins.insert(session_id, pending);
    }

    /// Drop whatever ceremonies a session has pending.
    pub fn clear_session(&mut self, session_id: u64)
        ensures
            final(self).registrations@ == old(self).registrations@.remove(session_id),
            final(self).logins@ == old(self).logins@.remove(session_id),
    {
        self.registrations.remove(&session_id);
        self.logins.remove(&session_id);
    }
}

} // verus!
