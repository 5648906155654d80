//! The user store capability: add, look up and credential-check user
//! records keyed by email. The in-memory implementation is the reference;
//! any substitute must meet the same contract.

use vstd::prelude::*;

use crate::domain::{spec_hashed, Email, HashedPassword, Password, User, UserV};
use crate::errors::AuthApiError;

verus! {

/// The map from email text to user record described by the rows of the
/// store, later rows winning (rows never repeat an email in a well-formed
/// store).
pub open spec fn users_map(rows: Seq<User>) -> Map<Seq<char>, UserV>
    decreases rows.len(),
{
    if rows.len() == 0 {
        Map::empty()
    } else {
        users_map(rows.drop_last()).insert(rows.last()@.email, rows.last()@)
    }
}

pub proof fn lemma_users_map_membership(rows: Seq<User>, e: Seq<char>)
    ensures
        users_map(rows).contains_key(e) <==> exists|i: int| 0 <= i < rows.len() && rows[i]@.email
            == e,
    decreases rows.len(),
{
    if rows.len() > 0 {
        lemma_users_map_membership(rows.drop_last(), e);
        if users_map(rows).contains_key(e) {
            if rows.last()@.email == e {
                assert(rows[rows.len() - 1]@.email == e);
            } else {
                let i = choose|i: int|
                    0 <= i < rows.drop_last().len() && rows.drop_last()[i]@.email == e;
                assert(rows[i]@.email == e);
            }
        }
        if exists|i: int| 0 <= i < rows.len() && rows[i]@.email == e {
            let i = choose|i: int| 0 <= i < rows.len() && rows[i]@.email == e;
            if i < rows.len() - 1 {
                assert(rows.drop_last()[i]@.email == e);
            }
        }
    }
}

pub proof fn lemma_users_map_index(rows: Seq<User>, i: int)
    requires
        0 <= i < rows.len(),
        forall|p: int, q: int| 0 <= p < q < rows.len() ==> rows[p]@.email != rows[q]@.email,
    ensures
        users_map(rows).contains_key(rows[i]@.email),
        users_map(rows)[rows[i]@.email] == rows[i]@,
    decreases rows.len(),
{
    if i == rows.len() - 1 {
        lemma_users_map_membership(rows, rows[i]@.email);
    } else {
        lemma_users_map_index(rows.drop_last(), i);
        assert(rows.drop_last()[i] == rows[i]);
        assert(rows[i]@.email != rows.last()@.email);
    }
}

/// The user-store capability. Every implementation exposes its contents as
/// a map from email to record and meets the contracts below against it.
pub trait UserStore: Sized {
    spec fn users(&self) -> Map<Seq<char>, UserV>;

    /// The implementation's internal invariant; constructors establish it
    /// and every operation preserves it.
    spec fn inv(&self) -> bool;

    /// Adds a record; fails, changing nothing, exactly when the email is
    /// already taken.
    fn add_user(&mut self, user: User) -> (r: Result<(), AuthApiError>)
        requires
            old(self).inv(),
        ensures
            final(self).inv(),
            old(self).users().contains_key(user@.email) ==> (r matches Err(
                AuthApiError::UserAlreadyExists,
            ) && final(self).users() == old(self).users()),
            !old(self).users().contains_key(user@.email) ==> (r is Ok && final(self).users()
                == old(self).users().insert(user@.email, user@)),
    ;

    /// Looks a record up by email.
    fn get_user(&self, email: &Email) -> (r: Result<User, AuthApiError>)
        requires
            self.inv(),
        ensures
            self.users().contains_key(email@) ==> (r matches Ok(u) && u@ == self.users()[email@]
                && u@.email == email@),
            !self.users().contains_key(email@) ==> r matches Err(AuthApiError::UserNotFound),
    ;

    /// Recomputes the hash of `password` and compares it with the stored
    /// one. A mismatch is a terminal failure, not a retry condition.
    fn validate_credentials(&self, email: &Email, password: &Password) -> (r: Result<
        bool,
        AuthApiError,
    >)
        requires
            self.inv(),
        ensures
            !self.users().contains_key(email@) ==> r matches Err(AuthApiError::UserNotFound),
            self.users().contains_key(email@) && self.users()[email@].password == spec_hashed(
                password@,
            ) ==> (r matches Ok(b) && b),
            self.users().contains_key(email@) && self.users()[email@].password != spec_hashed(
                password@,
            ) ==> r matches Err(AuthApiError::InvalidCredentials),
    ;
}

/// The in-memory user store, the reference implementation.
#[derive(Debug, Clone)]
pub struct InMemoryUserStore {
    users: Vec<User>,
}

/// The earlier name of the in-memory store, kept for callers of it.
pub type HashMapUserUserStore = InMemoryUserStore;

impl InMemoryUserStore {
    /// No two rows claim the same email.
    pub closed spec fn wf(&self) -> bool {
        forall|p: int, q: int|
            0 <= p < q < self.users@.len() ==> self.users@[p]@.email != self.users@[q]@.email
    }

    pub fn new() -> (r: InMemoryUserStore)
        ensures
            r.users() == Map::<Seq<char>, UserV>::empty(),
            r.inv(),
    {
        InMemoryUserStore { users: Vec::new() }
    }

    /// Index of the row holding `email`, if any.
    fn find(&self, email: &Email) -> (r: Option<usize>)
        ensures
            match r {
                Some(i) => i < self.users@.len() && self.users@[i as int]@.email == email@,
                None => forall|i: int|
                    0 <= i < self.users@.len() ==> self.users@[i]@.email != email@,
            },
    {
        let mut i: usize = 0;
        let n = self.users.len();
        while i < n
            invariant
                i <= n == self.users@.len(),
                forall|j: int| 0 <= j < i ==> self.users@[j]@.email != email@,
            decreases n - i,
        {
            if crate::text::str_eq(self.users[i].email.as_str(), email.as_str()) {
                return Some(i);
            }
            i = i + 1;
        }
        None
    }
}

impl UserStore for InMemoryUserStore {
    closed spec fn users(&self) -> Map<Seq<char>, UserV> {
        users_map(self.users@)
    }

    closed spec fn inv(&self) -> bool {
        self.wf()
    }

    fn add_user(&mut self, user: User) -> (r: Result<(), AuthApiError>) {
        proof {
            lemma_users_map_membership(self.users@, user@.email);
        }
        if self.find(&user.email).is_some() {
            return Err(AuthApiError::UserAlreadyExists);
        }
        self.users.push(user);
        proof {
            assert(self.users@.drop_last() =~= old(self).users@);
            assert(self.users@.last() == user);
        }
        Ok(())
    }

    fn get_user(&self, email: &Email) -> (r: Result<User, AuthApiError>) {
        proof {
            lemma_users_map_membership(self.users@, email@);
        }
        match self.find(email) {
            Some(i) => {
                proof {
                    lemma_users_map_index(self.users@, i as int);
                }
                Ok(self.users[i].clone())
            },
            None => Err(AuthApiError::UserNotFound),
        }
    }

    fn validate_credentials(&self, email: &Email, password: &Password) -> (r: Result<
        bool,
        AuthApiError,
    >) {
        proof {
            lemma_users_map_membership(self.users@, email@);
        }
        match self.find(email) {
            Some(i) => {
                proof {
                    lemma_users_map_index(self.users@, i as int);
                }
                let expected = HashedPassword::from(password);
                if self.users[i].password == expected {
                    Ok(true)
                } else {
                    Err(AuthApiError::InvalidCredentials)
                }
            },
            None => Err(AuthApiError::UserNotFound),
        }
    }
}

} // verus!
