//! The registry: the single point of truth for which raffles exist and
//! where a join request is routed.
//!
//! The registry owns a mapping from raffle identifier to that raffle's
//! membership state. Entries are added on creation and never removed. A
//! join request for an unknown raffle identifier is answered with an
//! explicit [`JoinOutcome::NotFound`] — a deliberate hardening over
//! dropping the request without a reply, chosen so that no caller can be
//! left waiting forever. A creation request for an identifier already
//! present is rejected with [`CreateOutcome::DuplicateId`] rather than
//! silently replacing (and orphaning) the existing raffle.

use vstd::prelude::*;

use crate::raffle::{Raffle, JoinReply, join_state, join_reply};

verus! {

/// View of one registry entry: the raffle's identifier and its membership
/// state in join order.
pub type RaffleRecord = (Seq<char>, Seq<Seq<char>>);

/// Outcome of a creation request.
#[derive(Clone, Copy, Debug, PartialEq, Eq, Structural)]
pub enum CreateOutcome {
    Created,
    DuplicateId,
}

/// Outcome of a routed join request, as seen by the caller.
#[derive(Clone, Copy, Debug, PartialEq, Eq, Structural)]
pub enum JoinOutcome {
    Joined(usize),
    Rejoined(usize),
    NotFound,
}

/// Whether a raffle with identifier `id` exists in registry state `r`.
pub open spec fn has_raffle(r: Seq<RaffleRecord>, id: Seq<char>) -> bool {
    exists|i: int| 0 <= i < r.len() && r[i].0 == id
}

/// The index of the raffle with identifier `id`. Meaningful when the
/// registry holds `id` and identifiers are unique, which pins it.
pub open spec fn raffle_index(r: Seq<RaffleRecord>, id: Seq<char>) -> int {
    choose|i: int| 0 <= i < r.len() && r[i].0 == id
}

/// Membership state of the raffle with identifier `id`.
pub open spec fn raffle_members(r: Seq<RaffleRecord>, id: Seq<char>) -> Seq<Seq<char>> {
    r[raffle_index(r, id)].1
}

/// Registry identifiers are pairwise distinct.
pub open spec fn ids_unique(r: Seq<RaffleRecord>) -> bool {
    forall|i: int, j: int| #![trigger r[i], r[j]]
        0 <= i < r.len() && 0 <= j < r.len() && i != j ==> r[i].0 != r[j].0
}

/// Well-formed registry state: identifiers unique, every raffle
/// duplicate-free.
pub open spec fn reg_wf(r: Seq<RaffleRecord>) -> bool {
    &&& ids_unique(r)
    &&& forall|i: int| 0 <= i < r.len() ==> (#[trigger] r[i].1).no_duplicates()
}

/// Registry state after a creation request for `id`: unchanged when `id` is
/// already present, extended by an empty raffle keyed by `id` otherwise.
pub open spec fn create_state(r: Seq<RaffleRecord>, id: Seq<char>) -> Seq<RaffleRecord> {
    if has_raffle(r, id) {
        r
    } else {
        r.push((id, Seq::<Seq<char>>::empty()))
    }
}

/// Outcome of a creation request for `id`.
pub open spec fn create_outcome(r: Seq<RaffleRecord>, id: Seq<char>) -> CreateOutcome {
    if has_raffle(r, id) {
        CreateOutcome::DuplicateId
    } else {
        CreateOutcome::Created
    }
}

/// The caller-facing outcome carrying a raffle's reply.
pub open spec fn outcome_of(reply: JoinReply) -> JoinOutcome {
    match reply {
        JoinReply::Joined(n) => JoinOutcome::Joined(n),
        JoinReply::Rejoined(n) => JoinOutcome::Rejoined(n),
    }
}

/// Carry a raffle's reply over to its caller.
pub fn outcome_from(reply: JoinReply) -> (r: JoinOutcome)
    ensures
        r == outcome_of(reply),
{
    match reply {
        JoinReply::Joined(n) => JoinOutcome::Joined(n),
        JoinReply::Rejoined(n) => JoinOutcome::Rejoined(n),
    }
}

/// Registry state after routing a join of `u` to raffle `id`: only that
/// raffle's membership moves, and only when `id` exists.
pub open spec fn route_state(r: Seq<RaffleRecord>, id: Seq<char>, u: Seq<char>) -> Seq<
    RaffleRecord,
> {
    if has_raffle(r, id) {
        r.update(raffle_index(r, id), (id, join_state(raffle_members(r, id), u)))
    } else {
        r
    }
}

/// Outcome of routing a join of `u` to raffle `id`.
pub open spec fn route_outcome(r: Seq<RaffleRecord>, id: Seq<char>, u: Seq<char>) -> JoinOutcome {
    if has_raffle(r, id) {
        outcome_of(join_reply(raffle_members(r, id), u))
    } else {
        JoinOutcome::NotFound
    }
}

/// With unique identifiers, the raffle found at index `i` is the raffle the
/// registry associates with its identifier.
pub proof fn lemma_raffle_index_is_index(r: Seq<RaffleRecord>, id: Seq<char>, i: int)
    requires
        ids_unique(r),
        0 <= i < r.len(),
        r[i].0 == id,
    ensures
        has_raffle(r, id),
        raffle_index(r, id) == i,
        raffle_members(r, id) == r[i].1,
{
    assert(has_raffle(r, id)) by {
        assert(0 <= i < r.len() && r[i].0 == id);
    }
    let j = choose|j: int| 0 <= j < r.len() && r[j].0 == id;
    if i != j {
        assert(r[i].0 != r[j].0);
    }
}

/// The two message kinds the registry processes, one at a time: create a
/// raffle under a caller-supplied identifier, or route a join request to
/// the raffle it names. (The reply path of a routed join is carried outside
/// this state; here a routed join answers its caller directly.)
pub enum Message {
    NewRaffle(String),
    JoinRaffle { raffle_id: String, user_id: String },
}

/// The registry's answer to one message.
#[derive(Clone, Copy, Debug, PartialEq, Eq, Structural)]
pub enum Reply {
    Create(CreateOutcome),
    Join(JoinOutcome),
}

/// Registry state after processing one message.
pub open spec fn handle_state(r: Seq<RaffleRecord>, m: Message) -> Seq<RaffleRecord> {
    match m {
        Message::NewRaffle(id) => create_state(r, id@),
        Message::JoinRaffle { raffle_id, user_id } => route_state(r, raffle_id@, user_id@),
    }
}

/// The registry's reply to one message.
pub open spec fn handle_reply(r: Seq<RaffleRecord>, m: Message) -> Reply {
    match m {
        Message::NewRaffle(id) => Reply::Create(create_outcome(r, id@)),
        Message::JoinRaffle { raffle_id, user_id } => Reply::Join(
            route_outcome(r, raffle_id@, user_id@),
        ),
    }
}

/// The side conditions of one message: a routed join carries a non-empty
/// identity token, to a raffle whose next sequence number is still
/// representable.
pub open spec fn handle_ok(r: Seq<RaffleRecord>, m: Message) -> bool {
    match m {
        Message::NewRaffle(_) => true,
        Message::JoinRaffle { raffle_id, user_id } => user_id@.len() > 0 && (has_raffle(
            r,
            raffle_id@,
        ) ==> raffle_members(r, raffle_id@).len() < usize::MAX),
    }
}

/// One registry entry: a raffle and the identifier it is looked up by.
struct RegistryEntry {
    id: String,
    raffle: Raffle,
}

/// The registry state, owned exclusively by the actor that serves creation
/// and routing requests. Its view is the sequence of `(identifier,
/// membership)` records in creation order.
pub struct Registry {
    entries: Vec<RegistryEntry>,
}

impl View for Registry {
    type V = Seq<RaffleRecord>;

    closed spec fn view(&self) -> Seq<RaffleRecord> {
        Seq::new(self.entries@.len(), |i: int| (self.entries@[i].id@, self.entries@[i].raffle@))
    }
}

impl Registry {
    /// Invariant of every registry reachable through this module.
    pub open spec fn wf(&self) -> bool {
        reg_wf(self@)
    }

    /// A registry with no raffles yet.
    pub fn new() -> (r: Registry)
        ensures
            r@ == Seq::<RaffleRecord>::empty(),
            r.wf(),
    {
        let r = Registry { entries: Vec::new() };
        proof {
            assert(r@ =~= Seq::<RaffleRecord>::empty());
        }
        r
    }

    /// The entry index of the raffle with identifier `id`, if present.
    fn find_index(&self, id: &String) -> (r: Option<usize>)
        ensures
            match r {
                Some(i) => i < self@.len() && self@[i as int].0 == id@,
                None => !has_raffle(self@, id@),
            },
    {
        let n = self.entries.len();
        let mut i: usize = 0;
        while i < n
            invariant
                n == self.entries@.len(),
                i <= n,
                forall|k: int| 0 <= k < i ==> self@[k].0 != id@,
            decreases n - i,
        {
            if self.entries[i].id == *id {
                proof {
                    assert(self@[i as int].0 == id@);
                }
                return Some(i);
            }
            i += 1;
        }
        None
    }

    /// Process a creation request. A fresh identifier is registered with an
    /// empty raffle; an identifier already present is rejected unchanged, so
    /// that the existing raffle is never silently replaced.
    pub fn create_raffle(&mut self, id: String) -> (r: CreateOutcome)
        requires
            old(self).wf(),
        ensures
            final(self).wf(),
            final(self)@ == create_state(old(self)@, id@),
            r == create_outcome(old(self)@, id@),
            has_raffle(final(self)@, id@),
            forall|i: int| 0 <= i < old(self)@.len() ==> final(self)@[i] == old(self)@[i],
    {
        match self.find_index(&id) {
            Some(i) => {
                proof {
                    assert(has_raffle(self@, id@)) by {
                        assert(self@[i as int].0 == id@);
                    }
                }
                CreateOutcome::DuplicateId
            }
            None => {
                let ghost pre = self@;
                let ghost idv = id@;
                let raffle = Raffle::new();
                self.entries.push(RegistryEntry { id, raffle });
                proof {
                    assert(self@ =~= pre.push((idv, Seq::<Seq<char>>::empty())));
                    assert(ids_unique(self@)) by {
                        assert forall|i: int, j: int|
                            0 <= i < self@.len() && 0 <= j < self@.len() && i != j
                            implies #[trigger] self@[i].0 != #[trigger] self@[j].0 by {
                            if i < pre.len() && j < pre.len() {
                                assert(pre[i].0 != pre[j].0);
                            } else if i < pre.len() && j == pre.len() {
                                if self@[i].0 == idv {
                                    assert(pre[i].0 == idv);
                                    assert(has_raffle(pre, idv));
                                }
                            } else if j < pre.len() && i == pre.len() {
                                if self@[j].0 == idv {
                                    assert(pre[j].0 == idv);
                                    assert(has_raffle(pre, idv));
                                }
                            }
                        }
                    }
                    assert(has_raffle(self@, idv)) by {
                        assert(self@[pre.len() as int].0 == idv);
                    }
                }
                CreateOutcome::Created
            }
        }
    }

    /// Route one join request to the raffle it names. The named raffle — and
    /// no other — moves by exactly one join step; a request naming an
    /// unknown identifier is answered `NotFound` and changes nothing.
    ///
    /// The identity must be a non-empty token; the bound on the named
    /// raffle's size only keeps its next sequence number representable in a
    /// `usize`.
    pub fn route_join(&mut self, raffle_id: &String, user_id: String) -> (r: JoinOutcome)
        requires
            old(self).wf(),
            user_id@.len() > 0,
            has_raffle(old(self)@, raffle_id@) ==> raffle_members(old(self)@, raffle_id@).len()
                < usize::MAX,
        ensures
            final(self).wf(),
            final(self)@ == route_state(old(self)@, raffle_id@, user_id@),
            r == route_outcome(old(self)@, raffle_id@, user_id@),
            (r == JoinOutcome::NotFound) <==> !has_raffle(old(self)@, raffle_id@),
            final(self)@.len() == old(self)@.len(),
            forall|i: int|
                0 <= i < old(self)@.len() && old(self)@[i].0 != raffle_id@ ==> final(self)@[i]
                    == old(self)@[i],
    {
        match self.find_index(raffle_id) {
            None => JoinOutcome::NotFound,
            Some(j) => {
                proof {
                    lemma_raffle_index_is_index(self@, raffle_id@, j as int);
                }
                let ghost pre = self@;
                let ghost uv = user_id@;
                let entry = &mut self.entries[j];
                let reply = entry.raffle.join(user_id);
                proof {
                    assert(self@ =~= pre.update(
                        j as int,
                        (pre[j as int].0, join_state(pre[j as int].1, uv)),
                    ));
                    assert(reg_wf(self@)) by {
                        assert forall|i: int| 0 <= i < self@.len() implies (
                        #[trigger] self@[i].1).no_duplicates() by {
                            if i != j {
                                assert(pre[i].1.no_duplicates());
                            }
                        }
                    }
                }
                match reply {
                    JoinReply::Joined(n) => JoinOutcome::Joined(n),
                    JoinReply::Rejoined(n) => JoinOutcome::Rejoined(n),
                }
            }
        }
    }

    /// Process one message, strictly serialized: this dispatch is the
    /// registry's single point of truth for which raffles exist and where a
    /// join is routed.
    pub fn handle(&mut self, msg: Message) -> (r: Reply)
        requires
            old(self).wf(),
            handle_ok(old(self)@, msg),
        ensures
            final(self).wf(),
            final(self)@ == handle_state(old(self)@, msg),
            r == handle_reply(old(self)@, msg),
    {
        match msg {
            Message::NewRaffle(id) => Reply::Create(self.create_raffle(id)),
            Message::JoinRaffle { raffle_id, user_id } => Reply::Join(
                self.route_join(&raffle_id, user_id),
            ),
        }
    }

    /// Number of distinct members of the raffle with identifier `id`, if
    /// that raffle exists.
    pub fn raffle_size(&self, id: &String) -> (r: Option<usize>)
        requires
            self.wf(),
        ensures
            match r {
                Some(n) => has_raffle(self@, id@) && n == raffle_members(self@, id@).len(),
                None => !has_raffle(self@, id@),
            },
    {
        match self.find_index(id) {
            None => None,
            Some(j) => {
                proof {
                    lemma_raffle_index_is_index(self@, id@, j as int);
                }
                Some(self.entries[j].raffle.member_count())
            }
        }
    }
}

} // verus!
