//! Membership state of a single raffle.
//!
//! A raffle owns an insertion-ordered table of member identities. The first
//! join of an identity assigns the next sequence number (current table size
//! plus one, so numbers are contiguous from 1); any repeat join is an
//! idempotent read of the existing assignment and is answered `Rejoined`.

use vstd::prelude::*;

verus! {

/// Reply of a raffle to one join request: either a first-time assignment of
/// a fresh sequence number, or the previously assigned number of an identity
/// that is already a member.
#[derive(Clone, Copy, Debug, PartialEq, Eq, Structural)]
pub enum JoinReply {
    Joined(usize),
    Rejoined(usize),
}

/// The sequence number assigned to member `u` in membership state `s`:
/// one more than the index at which `u` sits. Meaningful when `s` holds `u`
/// and has no duplicates, which pins the index uniquely.
pub open spec fn member_number(s: Seq<Seq<char>>, u: Seq<char>) -> int {
    (choose|i: int| 0 <= i < s.len() && s[i] == u) + 1
}

/// Membership state after one join of `u`: unchanged when `u` is already a
/// member, extended by `u` at the end otherwise.
pub open spec fn join_state(s: Seq<Seq<char>>, u: Seq<char>) -> Seq<Seq<char>> {
    if s.contains(u) {
        s
    } else {
        s.push(u)
    }
}

/// Reply to one join of `u` in state `s`.
pub open spec fn join_reply(s: Seq<Seq<char>>, u: Seq<char>) -> JoinReply {
    if s.contains(u) {
        JoinReply::Rejoined(member_number(s, u) as usize)
    } else {
        JoinReply::Joined((s.len() + 1) as usize)
    }
}

/// In a duplicate-free state, the assigned number of the member at index `i`
/// is exactly `i + 1`.
pub proof fn lemma_member_number_is_index(s: Seq<Seq<char>>, u: Seq<char>, i: int)
    requires
        s.no_duplicates(),
        0 <= i < s.len(),
        s[i] == u,
    ensures
        s.contains(u),
        member_number(s, u) == i + 1,
{
    assert(s.contains(u)) by {
        assert(0 <= i < s.len() && s[i] == u);
    }
    let j = choose|j: int| 0 <= j < s.len() && s[j] == u;
    if i != j {
        assert(s[i] != s[j]);
    }
}

/// Appending an identity that is not yet a member keeps the table
/// duplicate-free.
pub proof fn lemma_push_fresh_keeps_no_duplicates(s: Seq<Seq<char>>, u: Seq<char>)
    requires
        s.no_duplicates(),
        !s.contains(u),
    ensures
        s.push(u).no_duplicates(),
{
    let t = s.push(u);
    assert forall|i: int, j: int|
        0 <= i < t.len() && 0 <= j < t.len() && i != j implies t[i] != t[j] by {
        if i < s.len() && j < s.len() {
            assert(s[i] != s[j]);
        } else if i < s.len() && j == s.len() {
            if t[i] == u {
                assert(0 <= i < s.len() && s[i] == u);
                assert(s.contains(u));
            }
        } else if j < s.len() && i == s.len() {
            if t[j] == u {
                assert(0 <= j < s.len() && s[j] == u);
                assert(s.contains(u));
            }
        }
    }
}

/// One raffle's membership table, owned exclusively by the actor that serves
/// this raffle. The view is the sequence of member identities in join order:
/// the member at index `i` holds sequence number `i + 1`.
pub struct Raffle {
    members: Vec<String>,
}

impl View for Raffle {
    type V = Seq<Seq<char>>;

    closed spec fn view(&self) -> Seq<Seq<char>> {
        Seq::new(self.members@.len(), |i: int| self.members@[i]@)
    }
}

impl Raffle {
    /// Invariant of every raffle reachable through this module: each
    /// identity appears at most once, so sequence numbers are unique and
    /// contiguous from 1.
    pub open spec fn wf(&self) -> bool {
        self@.no_duplicates()
    }

    /// A raffle with no members yet.
    pub fn new() -> (r: Raffle)
        ensures
            r@ == Seq::<Seq<char>>::empty(),
            r.wf(),
    {
        let r = Raffle { members: Vec::new() };
        proof {
            assert(r@ =~= Seq::<Seq<char>>::empty());
        }
        r
    }

    /// Number of distinct members so far.
    pub fn member_count(&self) -> (n: usize)
        ensures
            n == self@.len(),
    {
        self.members.len()
    }

    /// The index at which `user` sits, if it is a member.
    pub fn find_member(&self, user: &String) -> (r: Option<usize>)
        ensures
            match r {
                Some(i) => i < self@.len() && self@[i as int] == user@,
                None => !self@.contains(user@),
            },
    {
        let n = self.members.len();
        let mut i: usize = 0;
        while i < n
            invariant
                n == self.members@.len(),
                i <= n,
                forall|k: int| 0 <= k < i ==> self@[k] != user@,
            decreases n - i,
        {
            if self.members[i] == *user {
                return Some(i);
            }
            i += 1;
        }
        None
    }

    /// Process one join request. A fresh identity is appended and assigned
    /// the next sequence number; an identity already present gets its old
    /// number back and the state is left untouched.
    ///
    /// The identity must be a non-empty token; the bound on the table size
    /// only keeps the next sequence number representable in a `usize`.
    pub fn join(&mut self, user: String) -> (r: JoinReply)
        requires
            old(self).wf(),
            user@.len() > 0,
            old(self)@.len() < usize::MAX,
        ensures
            final(self).wf(),
            final(self)@ == join_state(old(self)@, user@),
            r == join_reply(old(self)@, user@),
    {
        match self.find_member(&user) {
            Some(i) => {
                proof {
                    lemma_member_number_is_index(old(self)@, user@, i as int);
                }
                JoinReply::Rejoined(i + 1)
            }
            None => {
                let number = self.members.len() + 1;
                let ghost pre = self@;
                self.members.push(user);
                proof {
                    assert(self@ =~= pre.push(user@));
                    lemma_push_fresh_keeps_no_duplicates(pre, user@);
                }
                JoinReply::Joined(number)
            }
        }
    }
}

} // verus!
