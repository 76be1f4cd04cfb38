use vstd::prelude::*;

use vstd::pervasive::VecAdditionalExecFns;
use vstd::slice::slice_to_vec;

use crate::errors::AuthError;
use crate::models::{user_like, User};
use crate::util::str_eq;

verus! {

/// Some record carries this username.
pub open spec fn username_taken(users: Seq<User>, name: Seq<char>) -> bool {
    exists|i: int| 0 <= i < users.len() && users[i].username@ == name
}

/// Some record carries this email address.
pub open spec fn email_taken(users: Seq<User>, email: Seq<char>) -> bool {
    exists|i: int| 0 <= i < users.len() && users[i].email@ == email
}

/// Some record carries this identifier.
pub open spec fn id_present(users: Seq<User>, id: int) -> bool {
    exists|i: int| 0 <= i < users.len() && users[i].id == id
}

/// The index of the record carrying this username.
pub open spec fn index_of_username(users: Seq<User>, name: Seq<char>) -> int {
    choose|i: int| 0 <= i < users.len() && users[i].username@ == name
}

/// Well-formed storage: identifiers are one more than the record's
/// position (so they are unique and assigned in insertion order), and
/// usernames and email addresses never repeat.
pub open spec fn repo_wf(users: Seq<User>) -> bool {
    &&& forall|i: int| 0 <= i < users.len() ==> #[trigger] users[i].id == i + 1
    &&& forall|i: int, j: int|
        0 <= i < j < users.len() ==> #[trigger] users[i].username@ != #[trigger] users[j].username@
    &&& forall|i: int, j: int|
        0 <= i < j < users.len() ==> #[trigger] users[i].email@ != #[trigger] users[j].email@
}

/// In a well-formed repository two records with one username are one
/// record.
pub proof fn lemma_username_unique(users: Seq<User>, i: int, j: int)
    requires
        repo_wf(users),
        0 <= i < users.len(),
        0 <= j < users.len(),
        users[i].username@ == users[j].username@,
    ensures
        i == j,
{
}

/// The race between two registrations of one username is settled by the
/// storage layer: once either has created its record, the name is taken,
/// so `create_user` answers the other with `Conflict` — in whichever
/// order the two were serialized.
pub proof fn lemma_duplicate_username_conflicts(users: Seq<User>, created: User, name: Seq<char>)
    requires
        created.username@ == name,
    ensures
        username_taken(users.push(created), name),
{
    assert(users.push(created)[users.len() as int].username@ == name);
}

/// The fields a freshly created record must carry.
pub open spec fn created_entry(
    u: User,
    id: int,
    username: Seq<char>,
    email: Seq<char>,
    public_key: Seq<u8>,
    credential_id: Seq<u8>,
    counter: u32,
    now: i64,
) -> bool {
    &&& u.id == id
    &&& u.username@ == username
    &&& u.email@ == email
    &&& u.passkey_public_key@ == public_key
    &&& u.passkey_credential_id@ == credential_id
    &&& u.passkey_counter == counter
    &&& u.created_at == now
    &&& u.updated_at == now
}

/// An in-memory user store with the contract of the storage collaborator:
/// lookups by username, email and identifier, race-safe unique creation,
/// and counter updates. It is the authority on uniqueness — the
/// application-level pre-checks are advisory only.
#[derive(Debug)]
pub struct UserRepository {
    pub users: Vec<User>,
}

impl UserRepository {
    /// An empty repository.
    pub fn new() -> (r: UserRepository)
        ensures
            r.users@.len() == 0,
            repo_wf(r.users@),
    {
        UserRepository { users: Vec::new() }
    }

    /// The record carrying this username, if any.
    pub fn find_user_by_username(&self, username: &str) -> (r: Option<User>)
        ensures
            match r {
                Some(u) => exists|i: int|
                    0 <= i < self.users@.len() && #[trigger] self.users@[i].username@ == username@
                        && user_like(u, self.users@[i]),
                None => !username_taken(self.users@, username@),
            },
    {
        let mut i: usize = 0;
        while i < self.users.len()
            invariant
                i <= self.users@.len(),
                forall|j: int| 0 <= j < i ==> #[trigger] self.users@[j].username@ != username@,
            decreases self.users@.len() - i,
        {
            if str_eq(self.users[i].username.as_str(), username) {
                return Some(self.users[i].snapshot());
            }
            i = i + 1;
        }
        None
    }

    /// The record carrying this email address, if any.
    pub fn find_user_by_email(&self, email: &str) -> (r: Option<User>)
        ensures
            match r {
                Some(u) => exists|i: int|
                    0 <= i < self.users@.len() && #[trigger] self.users@[i].email@ == email@
                        && user_like(u, self.users@[i]),
                None => !email_taken(self.users@, email@),
            },
    {
        let mut i: usize = 0;
        while i < self.users.len()
            invariant
                i <= self.users@.len(),
                forall|j: int| 0 <= j < i ==> #[trigger] self.users@[j].email@ != email@,
            decreases self.users@.len() - i,
        {
            if str_eq(self.users[i].email.as_str(), email) {
                return Some(self.users[i].snapshot());
            }
            i = i + 1;
        }
        None
    }

    /// The record carrying this identifier, if any.
    pub fn find_user_by_id(&self, id: i64) -> (r: Option<User>)
        ensures
            match r {
                Some(u) => exists|i: int|
                    0 <= i < self.users@.len() && #[trigger] self.users@[i].id == id && user_like(
                        u,
                        self.users@[i],
                    ),
                None => !id_present(self.users@, id as int),
            },
    {
        let mut i: usize = 0;
        while i < self.users.len()
            invariant
                i <= self.users@.len(),
                forall|j: int| 0 <= j < i ==> #[trigger] self.users@[j].id != id,
            decreases self.users@.len() - i,
        {
            if self.users[i].id == id {
                return Some(self.users[i].snapshot());
            }
            i = i + 1;
        }
        None
    }

    /// Create a user and its credential in one atomic step. Fails with
    /// `Conflict` — and stores nothing — exactly when the username or the
    /// email is already taken; otherwise appends the record under the next
    /// identifier. The check and the write are one operation, so of two
    /// racing registrations one succeeds and one conflicts.
    pub fn create_user(
        &mut self,
        username: &str,
        email: &str,
        public_key: &[u8],
        credential_id: &[u8],
        initial_counter: u32,
        now: i64,
    ) -> (r: Result<i64, AuthError>)
        requires
            repo_wf(old(self).users@),
            old(self).users@.len() < 0x7fff_ffff_ffff_ffff,
        ensures
            repo_wf(final(self).users@),
            match r {
                Ok(id) => {
                    &&& !username_taken(old(self).users@, username@)
                    &&& !email_taken(old(self).users@, email@)
                    &&& id as int == old(self).users@.len() + 1
                    &&& final(self).users@.len() == old(self).users@.len() + 1
                    &&& final(self).users@ == old(self).users@.push(final(self).users@.last())
                    &&& created_entry(
                        final(self).users@.last(),
                        id as int,
                        username@,
                        email@,
                        public_key@,
                        credential_id@,
                        initial_counter,
                        now,
                    )
                },
                Err(e) => {
                    &&& e == AuthError::Conflict
                    &&& (username_taken(old(self).users@, username@) || email_taken(
                        old(self).users@,
                        email@,
                    ))
                    &&& final(self).users@ == old(self).users@
                },
            },
    {
        match self.find_user_by_username(username) {
            Some(_) => {
                return Err(AuthError::Conflict);
            },
            None => {},
        }
        match self.find_user_by_email(email) {
            Some(_) => {
                return Err(AuthError::Conflict);
            },
            None => {},
        }
        let id: i64 = (self.users.len() as i64) + 1;
        let record = User {
            id,
            username: username.to_owned(),
            email: email.to_owned(),
            passkey_public_key: slice_to_vec(public_key),
            passkey_credential_id: slice_to_vec(credential_id),
            passkey_counter: initial_counter,
            created_at: now,
            updated_at: now,
        };
        self.users.push(record);
        Ok(id)
    }

    /// Set the credential counter of the user with this identifier,
    /// touching nothing else; reports whether such a user exists.
    pub fn update_credential_counter(&mut self, user_id: i64, new_counter: u32, now: i64) -> (r:
        bool)
        requires
            repo_wf(old(self).users@),
        ensures
            repo_wf(final(self).users@),
            r == id_present(old(self).users@, user_id as int),
            !r ==> final(self).users@ == old(self).users@,
            r ==> {
                let idx = user_id - 1;
                &&& 0 <= idx < old(self).users@.len()
                &&& final(self).users@ == old(self).users@.update(idx, final(self).users@[idx])
                &&& ({
                    let u = final(self).users@[idx];
                    let v = old(self).users@[idx];
                    u.id == v.id && u.username@ == v.username@ && u.email@ == v.email@
                        && u.passkey_public_key@ == v.passkey_public_key@
                        && u.passkey_credential_id@ == v.passkey_credential_id@
                        && u.passkey_counter == new_counter && u.created_at == v.created_at
                        && u.updated_at == now
                })
            },
    {
        let mut i: usize = 0;
        while i < self.users.len()
            invariant
                i <= self.users@.len(),
                forall|j: int| 0 <= j < i ==> #[trigger] self.users@[j].id != user_id,
                repo_wf(self.users@),
                self.users@ == old(self).users@,
            decreases self.users@.len() - i,
        {
            if self.users[i].id == user_id {
                proof {
                    assert(self.users@[i as int].id == i + 1);
                    assert(i as int == user_id - 1);
                }
                let mut updated = self.users[i].snapshot();
                updated.passkey_counter = new_counter;
                updated.updated_at = now;
                self.users.set(i, updated);
                proof {
                    assert(self.users@ =~= old(self).users@.update(
                        user_id - 1,
                        self.users@[user_id - 1],
                    ));
                    assert forall|a: int|
                        0 <= a < self.users@.len() implies #[trigger] self.users@[a].id == a
                        + 1 by {
                        assert(self.users@[a].id == old(self).users@[a].id);
                    }
                    assert forall|a: int, b: int|
                        0 <= a < b < self.users@.len() implies #[trigger] self.users@[a].username@
                            != #[trigger] self.users@[b].username@ by {
                        assert(self.users@[a].username@ == old(self).users@[a].username@);
                        assert(self.users@[b].username@ == old(self).users@[b].username@);
                    }
                    assert forall|a: int, b: int|
                        0 <= a < b < self.users@.len() implies #[trigger] self.users@[a].email@
                            != #[trigger] self.users@[b].email@ by {
                        assert(self.users@[a].email@ == old(self).users@[a].email@);
                        assert(self.users@[b].email@ == old(self).users@[b].email@);
                    }
                }
                return true;
            }
            i = i + 1;
        }
        false
    }
}

} // verus!
