//! The pending-challenge store: at most one outstanding `(attempt id,
//! code)` pair per email. A new login attempt overwrites the prior pair;
//! successful verification consumes it.

use vstd::prelude::*;

use crate::domain::{Email, TwoFactorMethod};
use crate::errors::AuthApiError;
use crate::two_factor::{LoginAttemptId, TwoFactorCode};

verus! {

/// The mathematical content of one pending challenge.
pub struct PendingV {
    pub id: Seq<char>,
    pub code: Seq<char>,
}

#[derive(Debug)]
struct PendingEntry {
    email: Email,
    id: LoginAttemptId,
    code: TwoFactorCode,
}

impl PendingEntry {
    spec fn pending(&self) -> PendingV {
        PendingV { id: self.id@, code: self.code@ }
    }
}

/// The map from email text to pending challenge described by the rows.
spec fn pending_map(rows: Seq<PendingEntry>) -> Map<Seq<char>, PendingV>
    decreases rows.len(),
{
    if rows.len() == 0 {
        Map::empty()
    } else {
        pending_map(rows.drop_last()).insert(rows.last().email@, rows.last().pending())
    }
}

proof fn lemma_pending_map_membership(rows: Seq<PendingEntry>, e: Seq<char>)
    ensures
        pending_map(rows).contains_key(e) <==> exists|i: int|
            0 <= i < rows.len() && rows[i].email@ == e,
    decreases rows.len(),
{
    if rows.len() > 0 {
        lemma_pending_map_membership(rows.drop_last(), e);
        if pending_map(rows).contains_key(e) {
            if rows.last().email@ == e {
                assert(rows[rows.len() - 1].email@ == e);
            } else {
                let i = choose|i: int|
                    0 <= i < rows.drop_last().len() && rows.drop_last()[i].email@ == e;
                assert(rows[i].email@ == e);
            }
        }
        if exists|i: int| 0 <= i < rows.len() && rows[i].email@ == e {
            let i = choose|i: int| 0 <= i < rows.len() && rows[i].email@ == e;
            if i < rows.len() - 1 {
                assert(rows.drop_last()[i].email@ == e);
            }
        }
    }
}

proof fn lemma_pending_map_index(rows: Seq<PendingEntry>, i: int)
    requires
        0 <= i < rows.len(),
        forall|p: int, q: int| 0 <= p < q < rows.len() ==> rows[p].email@ != rows[q].email@,
    ensures
        pending_map(rows).contains_key(rows[i].email@),
        pending_map(rows)[rows[i].email@] == rows[i].pending(),
    decreases rows.len(),
{
    if i == rows.len() - 1 {
        lemma_pending_map_membership(rows, rows[i].email@);
    } else {
        lemma_pending_map_index(rows.drop_last(), i);
        assert(rows.drop_last()[i] == rows[i]);
        assert(rows[i].email@ != rows.last().email@);
    }
}

proof fn lemma_pending_map_remove(rows: Seq<PendingEntry>, i: int)
    requires
        0 <= i < rows.len(),
        forall|p: int, q: int| 0 <= p < q < rows.len() ==> rows[p].email@ != rows[q].email@,
    ensures
        pending_map(rows.remove(i)) == pending_map(rows).remove(rows[i].email@),
    decreases rows.len(),
{
    if i == rows.len() - 1 {
        assert(rows.remove(i) =~= rows.drop_last());
        lemma_pending_map_membership(rows.drop_last(), rows[i].email@);
        assert(forall|j: int|
            0 <= j < rows.drop_last().len() ==> rows.drop_last()[j].email@ != rows[i].email@);
        assert(pending_map(rows.drop_last()).insert(rows.last().email@, rows.last().pending())
            .remove(rows[i].email@) =~= pending_map(rows.drop_last()));
    } else {
        let t = rows.drop_last();
        lemma_pending_map_remove(t, i);
        assert(rows.remove(i).drop_last() =~= t.remove(i));
        assert(rows.remove(i).last() == rows.last());
        assert(rows[i].email@ != rows.last().email@);
        assert(pending_map(t).remove(rows[i].email@).insert(
            rows.last().email@,
            rows.last().pending(),
        ) =~= pending_map(t).insert(rows.last().email@, rows.last().pending()).remove(
            rows[i].email@,
        ));
    }
}

/// The in-memory pending-challenge store.
#[derive(Debug)]
pub struct InMemoryTwoFactorCodeStore {
    entries: Vec<PendingEntry>,
}

impl View for InMemoryTwoFactorCodeStore {
    type V = Map<Seq<char>, PendingV>;

    closed spec fn view(&self) -> Map<Seq<char>, PendingV> {
        pending_map(self.entries@)
    }
}

impl InMemoryTwoFactorCodeStore {
    /// No two rows claim the same email, and every row holds well-formed
    /// id and code text.
    pub closed spec fn wf(&self) -> bool {
        &&& forall|p: int, q: int|
            0 <= p < q < self.entries@.len() ==> self.entries@[p].email@ != self.entries@[q].email@
        &&& forall|i: int|
            #![trigger self.entries@[i]]
            0 <= i < self.entries@.len() ==> (self.entries@[i].id.wf()
                && self.entries@[i].code.wf())
    }

    pub fn new() -> (r: InMemoryTwoFactorCodeStore)
        ensures
            r@ == Map::<Seq<char>, PendingV>::empty(),
            r.wf(),
    {
        InMemoryTwoFactorCodeStore { entries: Vec::new() }
    }

    /// Index of the row holding `email`, if any.
    fn find(&self, email: &Email) -> (r: Option<usize>)
        ensures
            match r {
                Some(i) => i < self.entries@.len() && self.entries@[i as int].email@ == email@,
                None => forall|i: int|
                    0 <= i < self.entries@.len() ==> self.entries@[i].email@ != email@,
            },
    {
        let mut i: usize = 0;
        let n = self.entries.len();
        while i < n
            invariant
                i <= n == self.entries@.len(),
                forall|j: int| 0 <= j < i ==> self.entries@[j].email@ != email@,
            decreases n - i,
        {
            if crate::text::str_eq(self.entries[i].email.as_str(), email.as_str()) {
                return Some(i);
            }
            i = i + 1;
        }
        None
    }

    /// Starts a fresh attempt for `email`: draws a new id and code and
    /// overwrites any pending pair for that email.
    pub fn new_login_attempt(&mut self, email: &Email, _two_factor_method: &TwoFactorMethod) -> (r:
        Result<(LoginAttemptId, TwoFactorCode), AuthApiError>)
        requires
            old(self).wf(),
        ensures
            final(self).wf(),
            r matches Ok((id, code)) && id.wf() && code.wf() && final(self)@ == old(self)@.insert(
                email@,
                PendingV { id: id@, code: code@ },
            ),
    {
        let id = LoginAttemptId::new();
        let code = TwoFactorCode::new();
        let ghost pre = self.entries@;
        match self.find(email) {
            Some(i) => {
                self.entries.remove(i);
                proof {
                    lemma_pending_map_remove(pre, i as int);
                    lemma_pending_map_membership(pre.remove(i as int), email@);
                    assert(forall|j: int|
                        0 <= j < pre.remove(i as int).len() ==> pre.remove(i as int)[j].email@
                            != email@);
                }
            },
            None => {},
        }
        let ghost mid = self.entries@;
        let entry = PendingEntry { email: email.clone(), id: id.clone(), code: code.clone() };
        self.entries.push(entry);
        proof {
            assert(self.entries@.drop_last() =~= mid);
            assert(self.entries@.last() == entry);
            assert(pending_map(mid).insert(email@, entry.pending()) =~= pending_map(pre).insert(
                email@,
                entry.pending(),
            ));
            assert forall|j: int| 0 <= j < mid.len() implies mid[j].email@ != email@ by {
                lemma_pending_map_membership(mid, email@);
            }
        }
        Ok((id, code))
    }

    /// The pending pair for `email`, if one exists.
    pub fn get_code(&self, email: &Email) -> (r: Result<
        (LoginAttemptId, TwoFactorCode),
        AuthApiError,
    >)
        requires
            self.wf(),
        ensures
            self@.contains_key(email@) ==> (r matches Ok((id, code)) && id@ == self@[email@].id
                && code@ == self@[email@].code && id.wf() && code.wf()),
            !self@.contains_key(email@) ==> r matches Err(AuthApiError::TwoFactorCodeNotFound),
    {
        proof {
            lemma_pending_map_membership(self.entries@, email@);
        }
        match self.find(email) {
            Some(i) => {
                proof {
                    lemma_pending_map_index(self.entries@, i as int);
                    assert(self.entries@[i as int].id.wf() && self.entries@[i as int].code.wf());
                    assert(self@[email@] == self.entries@[i as int].pending());
                }
                Ok((self.entries[i].id.clone(), self.entries[i].code.clone()))
            },
            None => Err(AuthApiError::TwoFactorCodeNotFound),
        }
    }

    /// Consumes the pending pair for `email`.
    pub fn remove_code(&mut self, email: &Email) -> (r: Result<(), AuthApiError>)
        requires
            old(self).wf(),
        ensures
            final(self).wf(),
            old(self)@.contains_key(email@) ==> (r is Ok && final(self)@ == old(self)@.remove(
                email@,
            )),
            !old(self)@.contains_key(email@) ==> (r matches Err(
                AuthApiError::TwoFactorCodeNotFound,
            ) && final(self)@ == old(self)@),
    {
        proof {
            lemma_pending_map_membership(self.entries@, email@);
        }
        match self.find(email) {
            Some(i) => {
                let ghost pre = self.entries@;
                self.entries.remove(i);
                proof {
                    lemma_pending_map_remove(pre, i as int);
                }
                Ok(())
            },
            None => Err(AuthApiError::TwoFactorCodeNotFound),
        }
    }

    /// Compares the supplied pair with the stored one. Returns `false`,
    /// not an error, on a mismatch; fails only when no attempt is pending
    /// for `email`.
    pub fn verify_code(&self, email: &Email, id: &LoginAttemptId, code: &TwoFactorCode) -> (r:
        Result<bool, AuthApiError>)
        requires
            self.wf(),
        ensures
            self@.contains_key(email@) ==> (r matches Ok(b) && b == (self@[email@].id == id@
                && self@[email@].code == code@)),
            !self@.contains_key(email@) ==> r matches Err(AuthApiError::TwoFactorCodeNotFound),
    {
        proof {
            lemma_pending_map_membership(self.entries@, email@);
        }
        match self.find(email) {
            Some(i) => {
                proof {
                    lemma_pending_map_index(self.entries@, i as int);
                }
                Ok(&self.entries[i].id == id && &self.entries[i].code == code)
            },
            None => Err(AuthApiError::TwoFactorCodeNotFound),
        }
    }
}

} // verus!
