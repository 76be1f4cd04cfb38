use vstd::prelude::*;

use std::collections::HashMap;

use vstd::string::StrSliceExecFns;
use vstd::string::StringExecFns;

use crate::codec::{b64_decoding, b64_encoding, AuthService};
use crate::errors::AuthError;
use crate::models::{
    AllowedCredential, AuthenticatorSelection, LoginBeginResponse, LoginCompleteResponse,
    PubKeyCredParam, PublicKeyCredential, RegisterBeginResponse, RegisterCompleteResponse,
    RelyingParty, User, UserInfo,
};
use crate::repo::{
    created_entry, email_taken, id_present, index_of_username, repo_wf, username_taken,
    UserRepository,
};
use crate::store::CeremonyStore;
use crate::util::str_eq;
use crate::validator::{login_validation, reg_validation};

verus! {

broadcast use vstd::std_specs::hash::group_hash_axioms;

/// An acceptable username: non-empty, at most 255 characters.
pub open spec fn valid_username(s: Seq<char>) -> bool {
    0 < s.len() <= 255
}

/// An acceptable email address: non-empty, at most 320 characters, with
/// an `@` somewhere in it.
pub open spec fn valid_email(s: Seq<char>) -> bool {
    &&& 0 < s.len() <= 320
    &&& exists|i: int| 0 <= i < s.len() && s[i] == '@'
}

/// Whether a ceremony begun at `created_at` is still usable at `now`,
/// given the store's time-to-live in seconds.
pub open spec fn ceremony_fresh(created_at: i64, now: i64, ttl_seconds: i64) -> bool {
    created_at <= now && now - created_at <= ttl_seconds
}

/// Syntactic check of a username.
pub fn validate_username(username: &str) -> (r: bool)
    ensures
        r == valid_username(username@),
{
    let n = username.unicode_len();
    1 <= n && n <= 255
}

/// Syntactic check of an email address.
pub fn validate_email(email: &str) -> (r: bool)
    ensures
        r == valid_email(email@),
{
    let n = email.unicode_len();
    if n == 0 || n > 320 {
        return false;
    }
    let mut i: usize = 0;
    let mut found: bool = false;
    while i < n
        invariant
            n == email@.len(),
            i <= n,
            found == exists|j: int| 0 <= j < i && email@[j] == '@',
        decreases n - i,
    {
        if email.get_char(i) == '@' {
            found = true;
        }
        i = i + 1;
    }
    found
}

/// The authentication core: ceremony state, authenticated sessions, the
/// user store, and the relying-party configuration.
#[derive(Debug)]
pub struct AuthenticationCore {
    pub store: CeremonyStore,
    pub sessions: HashMap<u64, i64>,
    pub repo: UserRepository,
    pub rp_id: String,
    pub rp_name: String,
    pub origin: String,
    pub timeout_ms: u32,
    pub ttl_seconds: i64,
}

/// The core's invariant: a well-formed repository and a sensible
/// time-to-live.
pub open spec fn core_wf(c: AuthenticationCore) -> bool {
    &&& repo_wf(c.repo.users@)
    &&& c.ttl_seconds >= 0
}

/// The relying-party configuration never changes under the core's
/// operations.
pub open spec fn same_config(a: AuthenticationCore, b: AuthenticationCore) -> bool {
    &&& a.rp_id == b.rp_id
    &&& a.rp_name == b.rp_name
    &&& a.origin == b.origin
    &&& a.timeout_ms == b.timeout_ms
    &&& a.ttl_seconds == b.ttl_seconds
}

/// What completing a registration yields — the new user's identifier,
/// username and email, or the error — as a function of the core's state,
/// the session, the claimed handle, the submitted credential and the
/// clock.
pub open spec fn registration_outcome(
    s: AuthenticationCore,
    session_id: u64,
    claimed_user_handle: Seq<char>,
    cred: PublicKeyCredential,
    now: i64,
) -> Result<(int, Seq<char>, Seq<char>), AuthError> {
    if !s.store.registrations@.contains_key(session_id) {
        Err(AuthError::NoCeremonyInProgress)
    } else {
        let p = s.store.registrations@[session_id];
        if !ceremony_fresh(p.created_at, now, s.ttl_seconds) {
            Err(AuthError::CeremonyExpired)
        } else if claimed_user_handle != p.user_handle@ {
            Err(AuthError::HandleMismatch)
        } else {
            match reg_validation(cred, p.challenge@, s.origin@) {
                Err(e) => Err(e),
                Ok(material) => if username_taken(s.repo.users@, p.username@) || email_taken(
                    s.repo.users@,
                    p.email@,
                ) {
                    Err(AuthError::Conflict)
                } else {
                    Ok((s.repo.users@.len() as int + 1, p.username@, p.email@))
                },
            }
        }
    }
}

/// What completing a login yields — the user's identifier, username and
/// email and the counter to persist, or the error — as a function of the
/// core's state, the session, the claimed username, the submitted
/// credential and the clock.
pub open spec fn login_outcome(
    s: AuthenticationCore,
    session_id: u64,
    claimed_username: Seq<char>,
    cred: PublicKeyCredential,
    now: i64,
) -> Result<(int, Seq<char>, Seq<char>, u32), AuthError> {
    if !s.store.logins@.contains_key(session_id) {
        Err(AuthError::NoCeremonyInProgress)
    } else {
        let p = s.store.logins@[session_id];
        if !ceremony_fresh(p.created_at, now, s.ttl_seconds) {
            Err(AuthError::CeremonyExpired)
        } else if claimed_username != p.username@ {
            Err(AuthError::UsernameMismatch)
        } else if !username_taken(s.repo.users@, p.username@) {
            Err(AuthError::NotFound)
        } else {
            let u = s.repo.users@[index_of_username(s.repo.users@, p.username@)];
            match login_validation(cred, p.challenge@, s.origin@, u.passkey_counter) {
                Err(e) => Err(e),
                Ok(n) => Ok((u.id as int, u.username@, u.email@, n)),
            }
        }
    }
}

impl AuthenticationCore {
    /// A fresh core for the given relying party: no users, no sessions,
    /// no pending ceremonies, a 60-second client-facing timeout and the
    /// matching server-side ceremony time-to-live.
    pub fn new(rp_id: String, rp_name: String, origin: String) -> (r: AuthenticationCore)
        ensures
            core_wf(r),
            r.store.registrations@ == Map::<u64, crate::store::PendingRegistration>::empty(),
            r.store.logins@ == Map::<u64, crate::store::PendingLogin>::empty(),
            r.sessions@ == Map::<u64, i64>::empty(),
            r.repo.users@.len() == 0,
            r.rp_id == rp_id,
            r.rp_name == rp_name,
            r.origin == origin,
            r.timeout_ms == 60000,
            r.ttl_seconds == 60,
    {
        AuthenticationCore {
            store: CeremonyStore::new(),
            sessions: HashMap::new(),
            repo: UserRepository::new(),
            rp_id,
            rp_name,
            origin,
            timeout_ms: 60000,
            ttl_seconds: 60,
        }
    }

    /// How many users the repository holds.
    pub fn user_count(&self) -> (r: usize)
        ensures
            r == self.repo.users@.len(),
    {
        self.repo.users.len()
    }

    /// Start a registration ceremony: reject syntactically bad input with
    /// `InvalidInput`, an already-taken username or email with `Conflict`;
    /// otherwise store a pending ceremony under the session key and return
    /// the descriptor the client's authenticator needs.
    pub fn begin_registration(
        &mut self,
        session_id: u64,
        username: &str,
        email: &str,
        now: i64,
    ) -> (r: Result<RegisterBeginResponse, AuthError>)
        requires
            core_wf(*old(self)),
        ensures
            core_wf(*final(self)),
            same_config(*final(self), *old(self)),
            final(self).repo.users@ == old(self).repo.users@,
            final(self).sessions@ == old(self).sessions@,
            final(self).store.logins@ == old(self).store.logins@,
            match r {
                Err(e) => {
                    &&& final(self).store.registrations@ == old(self).store.registrations@
                    &&& (e == AuthError::InvalidInput || e == AuthError::Conflict)
                    &&& (e == AuthError::InvalidInput <==> !(valid_username(username@)
                        && valid_email(email@)))
                    &&& e == AuthError::Conflict ==> (username_taken(
                        old(self).repo.users@,
                        username@,
                    ) || email_taken(old(self).repo.users@, email@))
                },
                Ok(resp) => {
                    &&& valid_username(username@) && valid_email(email@)
                    &&& !username_taken(old(self).repo.users@, username@)
                    &&& !email_taken(old(self).repo.users@, email@)
                    &&& exists|c: Seq<u8>|
                        c.len() == 32 && resp.challenge@ == b64_encoding(c) && b64_decoding(
                            resp.challenge@,
                        ) == Some(c)
                    &&& exists|h: Seq<u8>|
                        h.len() == 16 && resp.user_id@ == b64_encoding(h) && b64_decoding(
                            resp.user_id@,
                        ) == Some(h)
                    &&& resp.timeout == old(self).timeout_ms
                    &&& resp.rp.id@ == old(self).rp_id@
                    &&& resp.rp.name@ == old(self).rp_name@
                    &&& resp.user.id@ == resp.user_id@
                    &&& resp.user.name@ == username@
                    &&& resp.user.display_name@ == username@
                    &&& resp.pub_key_cred_params@.len() == 2
                    &&& resp.pub_key_cred_params@[0].alg == -7
                    &&& resp.pub_key_cred_params@[1].alg == -257
                    &&& resp.pub_key_cred_params@[0].cred_type@ == "public-key"@
                    &&& resp.pub_key_cred_params@[1].cred_type@ == "public-key"@
                    &&& resp.attestation@ == "none"@
                    &&& resp.authenticator_selection.authenticator_attachment is None
                    &&& resp.authenticator_selection.require_resident_key == false
                    &&& resp.authenticator_selection.resident_key@ == "preferred"@
                    &&& resp.authenticator_selection.user_verification@ == "preferred"@
                    &&& final(self).store.registrations@
                        == old(self).store.registrations@.insert(
                        session_id,
                        final(self).store.registrations@[session_id],
                    )
                    &&& final(self).store.registrations@.contains_key(session_id)
                    &&& ({
                        let p = final(self).store.registrations@[session_id];
                        p.challenge@ == resp.challenge@ && p.user_handle@ == resp.user_id@
                            && p.username@ == username@ && p.email@ == email@ && p.created_at == now
                    })
                },
            },
    {
        if !validate_username(username) || !validate_email(email) {
            return Err(AuthError::InvalidInput);
        }
        match self.repo.find_user_by_username(username) {
            Some(_) => {
                return Err(AuthError::Conflict);
            },
            None => {},
        }
        match self.repo.find_user_by_email(email) {
            Some(_) => {
                return Err(AuthError::Conflict);
            },
            None => {},
        }
        let descriptor = self.store.begin_registration(session_id, username, email, now);
        let (challenge, user_handle) = descriptor;
        let mut params: Vec<PubKeyCredParam> = Vec::new();
        params.push(PubKeyCredParam { alg: -7, cred_type: String::from_str("public-key") });
        params.push(PubKeyCredParam { alg: -257, cred_type: String::from_str("public-key") });
        let resp = RegisterBeginResponse {
            challenge,
            user_id: user_handle.clone(),
            timeout: self.timeout_ms,
            rp: RelyingParty { id: self.rp_id.clone(), name: self.rp_name.clone() },
            user: UserInfo {
                id: user_handle,
                name: username.to_owned(),
                display_name: username.to_owned(),
            },
            pub_key_cred_params: params,
            authenticator_selection: AuthenticatorSelection {
                authenticator_attachment: None,
                require_resident_key: false,
                resident_key: String::from_str("preferred"),
                user_verification: String::from_str("preferred"),
            },
            attestation: String::from_str("none"),
        };
        Ok(resp)
    }

    /// Complete a registration ceremony: consume the pending ceremony,
    /// check its age and the claimed handle, validate the credential, and
    /// atomically create the user — establishing the session on success.
    /// Failures other than expiry and a missing ceremony leave the pending
    /// ceremony intact for a retry.
    pub fn complete_registration(
        &mut self,
        session_id: u64,
        claimed_user_handle: &str,
        credential: &PublicKeyCredential,
        now: i64,
    ) -> (r: Result<RegisterCompleteResponse, AuthError>)
        requires
            core_wf(*old(self)),
            old(self).repo.users@.len() < 0x7fff_ffff_ffff_fffe,
        ensures
            core_wf(*final(self)),
            same_config(*final(self), *old(self)),
            final(self).store.logins@ == old(self).store.logins@,
            match r {
                Ok(resp) => registration_outcome(
                    *old(self),
                    session_id,
                    claimed_user_handle@,
                    *credential,
                    now,
                ) == Ok::<(int, Seq<char>, Seq<char>), AuthError>(
                    (resp.user_id as int, resp.username@, resp.email@),
                ),
                Err(e) => registration_outcome(
                    *old(self),
                    session_id,
                    claimed_user_handle@,
                    *credential,
                    now,
                ) == Err::<(int, Seq<char>, Seq<char>), AuthError>(e),
            },
            r is Ok ==> ({
                let p = old(self).store.registrations@[session_id];
                let material = reg_validation(*credential, p.challenge@, old(self).origin@)->Ok_0;
                &&& final(self).store.registrations@ == old(self).store.registrations@.remove(
                    session_id,
                )
                &&& final(self).repo.users@ == old(self).repo.users@.push(
                    final(self).repo.users@.last(),
                )
                &&& created_entry(
                    final(self).repo.users@.last(),
                    old(self).repo.users@.len() as int + 1,
                    p.username@,
                    p.email@,
                    material.1,
                    material.0,
                    0,
                    now,
                )
                &&& final(self).sessions@ == old(self).sessions@.insert(
                    session_id,
                    (old(self).repo.users@.len() + 1) as i64,
                )
            }),
            r is Err ==> final(self).repo.users@ == old(self).repo.users@ && final(self).sessions@
                == old(self).sessions@,
            r matches Err(e) && e == AuthError::CeremonyExpired
                ==> final(self).store.registrations@
                == old(self).store.registrations@.remove(session_id),
            r matches Err(e) && e != AuthError::CeremonyExpired
                ==> final(self).store.registrations@ == old(self).store.registrations@,
    {
        let pending = match self.store.take_pending_registration(session_id) {
            Some(p) => p,
            None => {
                return Err(AuthError::NoCeremonyInProgress);
            },
        };
        if !(pending.created_at <= now && (now as i128) - (pending.created_at as i128) <= (
        self.ttl_seconds as i128)) {
            return Err(AuthError::CeremonyExpired);
        }
        if !str_eq(claimed_user_handle, pending.user_handle.as_str()) {
            self.store.restore_registration(session_id, pending);
            proof {
                assert(self.store.registrations@ =~= old(self).store.registrations@);
            }
            return Err(AuthError::HandleMismatch);
        }
        let material = match AuthService::validate_registration_credential(
            credential,
            pending.challenge.as_str(),
            self.origin.as_str(),
        ) {
            Ok(m) => m,
            Err(e) => {
                self.store.restore_registration(session_id, pending);
                proof {
                    assert(self.store.registrations@ =~= old(self).store.registrations@);
                }
                return Err(e);
            },
        };
        let (credential_id, public_key) = material;
        let created = self.repo.create_user(
            pending.username.as_str(),
            pending.email.as_str(),
            public_key.as_slice(),
            credential_id.as_slice(),
            0,
            now,
        );
        match created {
            Ok(user_id) => {
                self.sessions.insert(session_id, user_id);
                Ok(
                    RegisterCompleteResponse {
                        user_id,
                        username: pending.username,
                        email: pending.email,
                    },
                )
            },
            Err(e) => {
                self.store.restore_registration(session_id, pending);
                proof {
                    assert(self.store.registrations@ =~= old(self).store.registrations@);
                }
                Err(e)
            },
        }
    }

    /// Start a login ceremony: look the user up (`NotFound` if the name is
    /// unknown), store a pending ceremony under the session key, and return
    /// the descriptor naming the user's stored credential.
    pub fn begin_login(&mut self, session_id: u64, username: &str, now: i64) -> (r: Result<
        LoginBeginResponse,
        AuthError,
    >)
        requires
            core_wf(*old(self)),
        ensures
            core_wf(*final(self)),
            same_config(*final(self), *old(self)),
            final(self).repo.users@ == old(self).repo.users@,
            final(self).sessions@ == old(self).sessions@,
            final(self).store.registrations@ == old(self).store.registrations@,
            match r {
                Err(e) => {
                    &&& e == AuthError::NotFound
                    &&& !username_taken(old(self).repo.users@, username@)
                    &&& final(self).store.logins@ == old(self).store.logins@
                },
                Ok(resp) => {
                    &&& username_taken(old(self).repo.users@, username@)
                    &&& exists|c: Seq<u8>|
                        c.len() == 32 && resp.challenge@ == b64_encoding(c) && b64_decoding(
                            resp.challenge@,
                        ) == Some(c)
                    &&& resp.timeout == old(self).timeout_ms
                    &&& resp.rp_id@ == old(self).rp_id@
                    &&& resp.allow_credentials@.len() == 1
                    &&& ({
                        let u = old(self).repo.users@[index_of_username(
                            old(self).repo.users@,
                            username@,
                        )];
                        resp.allow_credentials@[0].id@ == b64_encoding(u.passkey_credential_id@)
                    })
                    &&& resp.allow_credentials@[0].cred_type@ == "public-key"@
                    &&& (resp.allow_credentials@[0].transports matches Some(ts) && ts@.len() == 1
                        && ts@[0]@ == "internal"@)
                    &&& final(self).store.logins@ == old(self).store.logins@.insert(
                        session_id,
                        final(self).store.logins@[session_id],
                    )
                    &&& final(self).store.logins@.contains_key(session_id)
                    &&& ({
                        let p = final(self).store.logins@[session_id];
                        p.challenge@ == resp.challenge@ && p.username@ == username@ && p.created_at
                            == now
                    })
                },
            },
    {
        let user = match self.repo.find_user_by_username(username) {
            Some(u) => u,
            None => {
                return Err(AuthError::NotFound);
            },
        };
        proof {
            let ghost users = self.repo.users@;
            let i = choose|i: int|
                0 <= i < users.len() && #[trigger] users[i].username@ == username@
                    && crate::models::user_like(user, users[i]);
            crate::repo::lemma_username_unique(users, i, index_of_username(users, username@));
        }
        let challenge = self.store.begin_login(session_id, username, now);
        let mut allowed: Vec<AllowedCredential> = Vec::new();
        let mut transports: Vec<String> = Vec::new();
        transports.push(String::from_str("internal"));
        allowed.push(
            AllowedCredential {
                id: AuthService::encode_base64(user.passkey_credential_id.as_slice()),
                cred_type: String::from_str("public-key"),
                transports: Some(transports),
            },
        );
        Ok(
            LoginBeginResponse {
                challenge,
                timeout: self.timeout_ms,
                rp_id: self.rp_id.clone(),
                allow_credentials: allowed,
            },
        )
    }

    /// Complete a login ceremony: consume the pending ceremony, check its
    /// age and the claimed username, re-fetch the user, validate the
    /// assertion against the stored credential and counter, persist the new
    /// counter, and establish the session. Failures other than expiry, a
    /// missing ceremony, and a vanished user leave the ceremony intact for
    /// a retry; a vanished user also clears the session.
    pub fn complete_login(
        &mut self,
        session_id: u64,
        claimed_username: &str,
        credential: &PublicKeyCredential,
        now: i64,
    ) -> (r: Result<LoginCompleteResponse, AuthError>)
        requires
            core_wf(*old(self)),
        ensures
            core_wf(*final(self)),
            same_config(*final(self), *old(self)),
            final(self).store.registrations@ == old(self).store.registrations@,
            match r {
                Ok(resp) => ({
                    let o = login_outcome(
                        *old(self),
                        session_id,
                        claimed_username@,
                        *credential,
                        now,
                    );
                    o is Ok && o->Ok_0.0 == resp.user_id as int && o->Ok_0.1 == resp.username@
                        && o->Ok_0.2 == resp.email@
                }),
                Err(e) => login_outcome(*old(self), session_id, claimed_username@, *credential, now)
                    == Err::<(int, Seq<char>, Seq<char>, u32), AuthError>(e),
            },
            r is Ok ==> ({
                let p = old(self).store.logins@[session_id];
                let idx = index_of_username(old(self).repo.users@, p.username@);
                let n = login_outcome(
                    *old(self),
                    session_id,
                    claimed_username@,
                    *credential,
                    now,
                )->Ok_0.3;
                &&& final(self).store.logins@ == old(self).store.logins@.remove(session_id)
                &&& final(self).repo.users@ == old(self).repo.users@.update(
                    idx,
                    final(self).repo.users@[idx],
                )
                &&& ({
                    let u = final(self).repo.users@[idx];
                    let v = old(self).repo.users@[idx];
                    u.passkey_counter == n && n > v.passkey_counter && u.id == v.id && u.username@
                        == v.username@ && u.email@ == v.email@ && u.passkey_public_key@
                        == v.passkey_public_key@ && u.passkey_credential_id@
                        == v.passkey_credential_id@ && u.created_at == v.created_at && u.updated_at
                        == now
                })
                &&& final(self).sessions@ == old(self).sessions@.insert(
                    session_id,
                    old(self).repo.users@[idx].id,
                )
            }),
            r is Err ==> final(self).repo.users@ == old(self).repo.users@,
            r matches Err(e) && (e == AuthError::CeremonyExpired || e == AuthError::NotFound)
                ==> final(self).store.logins@ == old(self).store.logins@.remove(session_id),
            r matches Err(e) && !(e == AuthError::CeremonyExpired || e == AuthError::NotFound)
                ==> final(self).store.logins@ == old(self).store.logins@,
            r matches Err(e) && e == AuthError::NotFound ==> final(self).sessions@ == old(
                self,
            ).sessions@.remove(session_id),
            r matches Err(e) && e != AuthError::NotFound ==> final(self).sessions@ == old(
                self,
            ).sessions@,
    {
        let pending = match self.store.take_pending_login(session_id) {
            Some(p) => p,
            None => {
                return Err(AuthError::NoCeremonyInProgress);
            },
        };
        if !(pending.created_at <= now && (now as i128) - (pending.created_at as i128) <= (
        self.ttl_seconds as i128)) {
            return Err(AuthError::CeremonyExpired);
        }
        if !str_eq(claimed_username, pending.username.as_str()) {
            self.store.restore_login(session_id, pending);
            proof {
                assert(self.store.logins@ =~= old(self).store.logins@);
            }
            return Err(AuthError::UsernameMismatch);
        }
        let user = match self.repo.find_user_by_username(pending.username.as_str()) {
            Some(u) => u,
            None => {
                self.sessions.remove(&session_id);
                return Err(AuthError::NotFound);
            },
        };
        proof {
            let ghost users = self.repo.users@;
            let i = choose|i: int|
                0 <= i < users.len() && #[trigger] users[i].username@ == pending.username@
                    && crate::models::user_like(user, users[i]);
            crate::repo::lemma_username_unique(
                users,
                i,
                index_of_username(users, pending.username@),
            );
        }
        let new_counter = match AuthService::validate_authentication_credential(
            credential,
            pending.challenge.as_str(),
            self.origin.as_str(),
            user.passkey_public_key.as_slice(),
            user.passkey_counter,
        ) {
            Ok(n) => n,
            Err(e) => {
                self.store.restore_login(session_id, pending);
                proof {
                    assert(self.store.logins@ =~= old(self).store.logins@);
                }
                return Err(e);
            },
        };
        let updated = self.repo.update_credential_counter(user.id, new_counter, now);
        proof {
            assert(updated);
        }
        self.sessions.insert(session_id, user.id);
        Ok(LoginCompleteResponse { user_id: user.id, username: pending.username, email: user.email })
    }

    /// Clear everything the session holds — its authenticated user and any
    /// pending ceremonies — unconditionally. Doing it again is a no-op.
    pub fn logout(&mut self, session_id: u64)
        requires
            core_wf(*old(self)),
        ensures
            core_wf(*final(self)),
            same_config(*final(self), *old(self)),
            final(self).repo.users@ == old(self).repo.users@,
            final(self).sessions@ == old(self).sessions@.remove(session_id),
            final(self).store.registrations@ == old(self).store.registrations@.remove(session_id),
            final(self).store.logins@ == old(self).store.logins@.remove(session_id),
    {
        self.sessions.remove(&session_id);
        self.store.clear_session(session_id);
    }

    /// The user the session is authenticated as, re-fetched live from the
    /// repository. A session naming a user that no longer exists is cleared
    /// and reported `Unauthenticated`.
    pub fn current_user(&mut self, session_id: u64) -> (r: Result<User, AuthError>)
        requires
            core_wf(*old(self)),
        ensures
            core_wf(*final(self)),
            same_config(*final(self), *old(self)),
            final(self).repo.users@ == old(self).repo.users@,
            final(self).store.registrations@ == old(self).store.registrations@,
            final(self).store.logins@ == old(self).store.logins@,
            match r {
                Ok(u) => {
                    &&& old(self).sessions@.contains_key(session_id)
                    &&& exists|i: int|
                        0 <= i < old(self).repo.users@.len()
                            && #[trigger] old(self).repo.users@[i].id == old(
                            self,
                        ).sessions@[session_id] && crate::models::user_like(
                            u,
                            old(self).repo.users@[i],
                        )
                    &&& final(self).sessions@ == old(self).sessions@
                },
                Err(e) => {
                    &&& e == AuthError::Unauthenticated
                    &&& (old(self).sessions@.contains_key(session_id) ==> !id_present(
                        old(self).repo.users@,
                        old(self).sessions@[session_id] as int,
                    ))
                    &&& (old(self).sessions@.contains_key(session_id) ==> final(self).sessions@
                        == old(self).sessions@.remove(session_id))
                    &&& (!old(self).sessions@.contains_key(session_id) ==> final(self).sessions@
                        == old(self).sessions@)
                },
            },
    {
        let user_id: i64 = match self.sessions.get(&session_id) {
            Some(id) => *id,
            None => {
                return Err(AuthError::Unauthenticated);
            },
        };
        match self.repo.find_user_by_id(user_id) {
            Some(u) => Ok(u),
            None => {
                self.sessions.remove(&session_id);
                Err(AuthError::Unauthenticated)
            },
        }
    }
}

/// Clearing a session's state is idempotent: after one `logout` every map
/// the core keeps for the session is already without the key, so a second
/// `logout` leaves the state exactly as it was — a no-op, with no error.
pub proof fn lemma_logout_idempotent<V>(m: Map<u64, V>, session_id: u64)
    ensures
        m.remove(session_id).remove(session_id) == m.remove(session_id),
{
    assert(m.remove(session_id).remove(session_id) =~= m.remove(session_id));
}

} // verus!
