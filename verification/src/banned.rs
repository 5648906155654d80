//! The revocation list: a set of raw token strings. Membership gates every
//! token verification; the set grows on logout and shrinks only on an
//! explicit unban.

use vstd::prelude::*;

use crate::errors::AuthApiError;

verus! {

/// The set of views of the strings in `s`.
pub open spec fn seq_str_set(s: Seq<String>) -> Set<Seq<char>>
    decreases s.len(),
{
    if s.len() == 0 {
        Set::empty()
    } else {
        seq_str_set(s.drop_last()).insert(s.last()@)
    }
}

pub proof fn lemma_seq_str_set_membership(s: Seq<String>, x: Seq<char>)
    ensures
        seq_str_set(s).contains(x) <==> exists|i: int| 0 <= i < s.len() && s[i]@ == x,
    decreases s.len(),
{
    if s.len() > 0 {
        lemma_seq_str_set_membership(s.drop_last(), x);
        if seq_str_set(s).contains(x) {
            if s.last()@ == x {
                assert(s[s.len() - 1]@ == x);
            } else {
                let i = choose|i: int| 0 <= i < s.drop_last().len() && s.drop_last()[i]@ == x;
                assert(s[i]@ == x);
            }
        }
        if exists|i: int| 0 <= i < s.len() && s[i]@ == x {
            let i = choose|i: int| 0 <= i < s.len() && s[i]@ == x;
            if i < s.len() - 1 {
                assert(s.drop_last()[i]@ == x);
            }
        }
    }
}

/// The in-memory revocation list.
#[derive(Debug, Clone)]
pub struct InMemoryBannedTokenStore {
    tokens: Vec<String>,
}

impl View for InMemoryBannedTokenStore {
    type V = Set<Seq<char>>;

    closed spec fn view(&self) -> Set<Seq<char>> {
        seq_str_set(self.tokens@)
    }
}

impl InMemoryBannedTokenStore {
    /// No two entries hold the same text.
    pub closed spec fn wf(&self) -> bool {
        forall|i: int, j: int|
            0 <= i < j < self.tokens@.len() ==> self.tokens@[i]@ != self.tokens@[j]@
    }

    pub fn new() -> (r: InMemoryBannedTokenStore)
        ensures
            r@ == Set::<Seq<char>>::empty(),
            r.wf(),
    {
        InMemoryBannedTokenStore { tokens: Vec::new() }
    }

    /// Index of the entry holding `token`, if any.
    fn find(&self, token: &str) -> (r: Option<usize>)
        ensures
            match r {
                Some(i) => i < self.tokens@.len() && self.tokens@[i as int]@ == token@,
                None => forall|i: int| 0 <= i < self.tokens@.len() ==> self.tokens@[i]@ != token@,
            },
    {
        let mut i: usize = 0;
        let n = self.tokens.len();
        while i < n
            invariant
                i <= n == self.tokens@.len(),
                forall|j: int| 0 <= j < i ==> self.tokens@[j]@ != token@,
            decreases n - i,
        {
            if crate::text::str_eq(self.tokens[i].as_str(), token) {
                return Some(i);
            }
            i = i + 1;
        }
        None
    }

    /// Whether `token` is revoked. Reading never changes the set, so
    /// repeated calls agree until the next mutation.
    pub fn is_token_banned(&self, token: &str) -> (r: bool)
        ensures
            r == self@.contains(token@),
    {
        proof {
            lemma_seq_str_set_membership(self.tokens@, token@);
        }
        self.find(token).is_some()
    }

    /// Adds `token` to the set. Banning an already-banned token leaves the
    /// set unchanged.
    pub fn ban_token(&mut self, token: &str) -> (r: Result<(), AuthApiError>)
        requires
            old(self).wf(),
        ensures
            r is Ok,
            final(self)@ == old(self)@.insert(token@),
            final(self).wf(),
    {
        proof {
            lemma_seq_str_set_membership(self.tokens@, token@);
        }
        if self.find(token).is_none() {
            self.tokens.push(token.to_owned());
            proof {
                assert(self.tokens@.drop_last() =~= old(self).tokens@);
            }
        } else {
            proof {
                assert(old(self)@.insert(token@) =~= old(self)@);
            }
        }
        Ok(())
    }

    /// Removes `token` from the set.
    pub fn unban_token(&mut self, token: &str) -> (r: Result<(), AuthApiError>)
        requires
            old(self).wf(),
        ensures
            r is Ok,
            final(self)@ == old(self)@.remove(token@),
            final(self).wf(),
    {
        proof {
            lemma_seq_str_set_membership(self.tokens@, token@);
        }
        match self.find(token) {
            Some(i) => {
                let ghost pre = self.tokens@;
                self.tokens.remove(i);
                proof {
                    lemma_seq_str_set_remove(pre, i as int);
                }
            },
            None => {
                proof {
                    assert(old(self)@.remove(token@) =~= old(self)@);
                }
            },
        }
        Ok(())
    }
}

proof fn lemma_seq_str_set_remove(s: Seq<String>, i: int)
    requires
        0 <= i < s.len(),
        forall|p: int, q: int| 0 <= p < q < s.len() ==> s[p]@ != s[q]@,
    ensures
        seq_str_set(s.remove(i)) == seq_str_set(s).remove(s[i]@),
    decreases s.len(),
{
    if i == s.len() - 1 {
        assert(s.remove(i) =~= s.drop_last());
        lemma_seq_str_set_membership(s.drop_last(), s[i]@);
        assert(forall|j: int| 0 <= j < s.drop_last().len() ==> s.drop_last()[j]@ != s[i]@);
        assert(seq_str_set(s.drop_last()).insert(s.last()@).remove(s[i]@) =~= seq_str_set(
            s.drop_last(),
        ));
    } else {
        let t = s.drop_last();
        lemma_seq_str_set_remove(t, i);
        assert(s.remove(i).drop_last() =~= t.remove(i));
        assert(s.remove(i).last() == s.last());
        assert(seq_str_set(s.remove(i)) == seq_str_set(t.remove(i)).insert(s.last()@));
        assert(s[i]@ != s.last()@);
        assert(seq_str_set(t).remove(s[i]@).insert(s.last()@) =~= seq_str_set(t).insert(
            s.last()@,
        ).remove(s[i]@));
    }
}

/// Revocation is idempotent: banning an already-banned token leaves the set
/// as it was, and the token stays banned.
pub proof fn lemma_ban_idempotent(banned: Set<Seq<char>>, token: Seq<char>)
    ensures
        banned.insert(token).insert(token) == banned.insert(token),
        banned.insert(token).contains(token),
{
    assert(banned.insert(token).insert(token) =~= banned.insert(token));
}

} // verus!
