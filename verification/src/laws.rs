//! The global properties of the raffle and registry transitions, stated and
//! proved once over the spec-level model that the executable contracts are
//! written against.

use vstd::prelude::*;

use crate::raffle::{
    JoinReply, join_reply, join_state, lemma_member_number_is_index,
    lemma_push_fresh_keeps_no_duplicates, member_number,
};
use crate::registry::{
    RaffleRecord, create_state, has_raffle, lemma_raffle_index_is_index, raffle_index,
    raffle_members, reg_wf, route_state,
};

verus! {

/// Membership state after a whole sequence of joins, processed in order.
pub open spec fn run_joins(s: Seq<Seq<char>>, us: Seq<Seq<char>>) -> Seq<Seq<char>>
    decreases us.len(),
{
    if us.len() == 0 {
        s
    } else {
        run_joins(join_state(s, us[0]), us.drop_first())
    }
}

/// One join step keeps the membership table duplicate-free.
pub proof fn lemma_join_preserves_wf(s: Seq<Seq<char>>, v: Seq<char>)
    requires
        s.no_duplicates(),
    ensures
        join_state(s, v).no_duplicates(),
{
    if !s.contains(v) {
        lemma_push_fresh_keeps_no_duplicates(s, v);
    }
}

/// One join step — by anyone — leaves every existing member a member, with
/// the sequence number it already had.
pub proof fn lemma_join_preserves_member(s: Seq<Seq<char>>, u: Seq<char>, v: Seq<char>)
    requires
        s.no_duplicates(),
        s.contains(u),
    ensures
        join_state(s, v).contains(u),
        member_number(join_state(s, v), u) == member_number(s, u),
{
    let i = choose|i: int| 0 <= i < s.len() && s[i] == u;
    assert(0 <= i < s.len() && s[i] == u);
    lemma_member_number_is_index(s, u, i);
    if !s.contains(v) {
        let t = s.push(v);
        lemma_push_fresh_keeps_no_duplicates(s, v);
        assert(t[i] == u);
        lemma_member_number_is_index(t, u, i);
    }
}

/// Only the first join of an identity is answered `Joined`; under every
/// later state reachable by further joins — its own retries or other
/// identities', in any order — that identity keeps the very number it was
/// assigned, every retry is answered `Rejoined` with that same number, and
/// a retry moves nothing.
pub proof fn lemma_member_number_stable(s: Seq<Seq<char>>, u: Seq<char>, us: Seq<Seq<char>>)
    requires
        s.no_duplicates(),
        s.contains(u),
    ensures
        run_joins(s, us).no_duplicates(),
        run_joins(s, us).contains(u),
        member_number(run_joins(s, us), u) == member_number(s, u),
        join_reply(run_joins(s, us), u) == JoinReply::Rejoined(member_number(s, u) as usize),
        join_state(run_joins(s, us), u) == run_joins(s, us),
    decreases us.len(),
{
    if us.len() == 0 {
    } else {
        let s1 = join_state(s, us[0]);
        lemma_join_preserves_wf(s, us[0]);
        lemma_join_preserves_member(s, u, us[0]);
        lemma_member_number_stable(s1, u, us.drop_first());
    }
}

/// Of all joins by one identity, only the first is answered `Joined`: a
/// fresh identity joining a raffle of `n` members is assigned `n + 1`, and
/// from then on — whatever joins anyone submits in between, in whatever
/// order — every retry by that identity is answered `Rejoined(n + 1)` and
/// moves nothing.
pub proof fn lemma_first_join_then_always_rejoined(
    s: Seq<Seq<char>>,
    u: Seq<char>,
    us: Seq<Seq<char>>,
)
    requires
        s.no_duplicates(),
        !s.contains(u),
    ensures
        join_reply(s, u) == JoinReply::Joined((s.len() + 1) as usize),
        join_reply(run_joins(join_state(s, u), us), u) == JoinReply::Rejoined(
            (s.len() + 1) as usize,
        ),
        join_state(run_joins(join_state(s, u), us), u) == run_joins(join_state(s, u), us),
{
    let t = s.push(u);
    lemma_push_fresh_keeps_no_duplicates(s, u);
    assert(t[s.len() as int] == u);
    lemma_member_number_is_index(t, u, s.len() as int);
    lemma_member_number_stable(t, u, us);
}

/// Joining identities that are all fresh and pairwise distinct appends them
/// in arrival order.
pub proof fn lemma_run_fresh(s: Seq<Seq<char>>, us: Seq<Seq<char>>)
    requires
        s.no_duplicates(),
        us.no_duplicates(),
        forall|k: int| 0 <= k < us.len() ==> !s.contains(#[trigger] us[k]),
    ensures
        run_joins(s, us) == s + us,
    decreases us.len(),
{
    if us.len() == 0 {
        assert(run_joins(s, us) =~= s + us);
    } else {
        let v = us[0];
        let rest = us.drop_first();
        assert(!s.contains(v));
        let s1 = s.push(v);
        lemma_push_fresh_keeps_no_duplicates(s, v);
        assert(rest.no_duplicates()) by {
            assert forall|i: int, j: int|
                0 <= i < rest.len() && 0 <= j < rest.len() && i != j implies rest[i] != rest[j] by {
                assert(rest[i] == us[i + 1]);
                assert(rest[j] == us[j + 1]);
                assert(us[i + 1] != us[j + 1]);
            }
        }
        assert forall|k: int| 0 <= k < rest.len() implies !s1.contains(#[trigger] rest[k]) by {
            assert(rest[k] == us[k + 1]);
            assert(!s.contains(us[k + 1]));
            assert(us[k + 1] != v);
            assert forall|m: int| 0 <= m < s1.len() implies s1[m] != us[k + 1] by {
                if m < s.len() {
                    assert(s1[m] == s[m]);
                    assert(!s.contains(us[k + 1]));
                } else {
                    assert(s1[m] == v);
                }
            }
        }
        lemma_run_fresh(s1, rest);
        assert(run_joins(s, us) == run_joins(s1, rest));
        assert(s1 + rest =~= s + us);
    }
}

/// N pairwise-distinct identities joining one raffle from empty, in arrival
/// order, end as exactly that member list, and the i-th of them is answered
/// `Joined(i + 1)`: sequence numbers are 1..N in order, with no gaps and no
/// duplicates.
pub proof fn lemma_distinct_joins_numbered_in_order(us: Seq<Seq<char>>)
    requires
        us.no_duplicates(),
    ensures
        run_joins(Seq::<Seq<char>>::empty(), us) == us,
        forall|i: int|
            0 <= i < us.len() ==> join_reply(
                run_joins(Seq::<Seq<char>>::empty(), us.take(i)),
                #[trigger] us[i],
            ) == JoinReply::Joined((i + 1) as usize),
{
    let e = Seq::<Seq<char>>::empty();
    lemma_run_fresh(e, us);
    assert(run_joins(e, us) =~= us);
    assert forall|i: int|
        0 <= i < us.len() implies join_reply(run_joins(e, us.take(i)), #[trigger] us[i])
        == JoinReply::Joined((i + 1) as usize) by {
        let p = us.take(i);
        assert(p.no_duplicates()) by {
            assert forall|a: int, b: int|
                0 <= a < p.len() && 0 <= b < p.len() && a != b implies p[a] != p[b] by {
                assert(p[a] == us[a]);
                assert(p[b] == us[b]);
                assert(us[a] != us[b]);
            }
        }
        lemma_run_fresh(e, p);
        assert(run_joins(e, p) =~= p);
        assert(!p.contains(us[i])) by {
            assert forall|k: int| 0 <= k < p.len() implies p[k] != us[i] by {
                assert(p[k] == us[k]);
                assert(us[k] != us[i]);
            }
        }
        assert(p.len() == i);
    }
}

/// Raffles are isolated: routing a join to one raffle leaves every other
/// raffle's membership — and with it every sequence number it has handed
/// out — exactly as it was.
pub proof fn lemma_raffles_isolated(
    r: Seq<RaffleRecord>,
    id: Seq<char>,
    u: Seq<char>,
    other: Seq<char>,
)
    requires
        reg_wf(r),
        other != id,
        has_raffle(r, other),
    ensures
        has_raffle(route_state(r, id, u), other),
        raffle_members(route_state(r, id, u), other) == raffle_members(r, other),
{
    let t = route_state(r, id, u);
    let i = choose|i: int| 0 <= i < r.len() && r[i].0 == other;
    assert(0 <= i < r.len() && r[i].0 == other);
    lemma_raffle_index_is_index(r, other, i);
    if has_raffle(r, id) {
        let j = raffle_index(r, id);
        let jw = choose|j: int| 0 <= j < r.len() && r[j].0 == id;
        assert(0 <= jw < r.len() && r[jw].0 == id);
        lemma_raffle_index_is_index(r, id, jw);
        assert(i != j);
        assert(t[i] == r[i]);
        assert(crate::registry::ids_unique(t)) by {
            assert forall|a: int, b: int|
                0 <= a < t.len() && 0 <= b < t.len() && a != b
                implies #[trigger] t[a].0 != #[trigger] t[b].0 by {
                assert(t[a].0 == r[a].0);
                assert(t[b].0 == r[b].0);
                assert(r[a].0 != r[b].0);
            }
        }
        lemma_raffle_index_is_index(t, other, i);
    }
}

/// Creating a raffle touches no existing raffle: every raffle already
/// present keeps its identifier and its whole membership.
pub proof fn lemma_create_preserves_raffles(r: Seq<RaffleRecord>, id: Seq<char>, other: Seq<char>)
    requires
        reg_wf(r),
        has_raffle(r, other),
    ensures
        has_raffle(create_state(r, id), other),
        raffle_members(create_state(r, id), other) == raffle_members(r, other),
{
    let t = create_state(r, id);
    let i = choose|i: int| 0 <= i < r.len() && r[i].0 == other;
    assert(0 <= i < r.len() && r[i].0 == other);
    lemma_raffle_index_is_index(r, other, i);
    if !has_raffle(r, id) {
        assert(t[i] == r[i]);
        assert(crate::registry::ids_unique(t)) by {
            assert forall|a: int, b: int|
                0 <= a < t.len() && 0 <= b < t.len() && a != b
                implies #[trigger] t[a].0 != #[trigger] t[b].0 by {
                if a < r.len() && b < r.len() {
                    assert(r[a].0 != r[b].0);
                } else if a < r.len() && b == r.len() {
                    if t[a].0 == id {
                        assert(r[a].0 == id);
                        assert(has_raffle(r, id));
                    }
                } else if b < r.len() && a == r.len() {
                    if t[b].0 == id {
                        assert(r[b].0 == id);
                        assert(has_raffle(r, id));
                    }
                }
            }
        }
        lemma_raffle_index_is_index(t, other, i);
    }
}

} // verus!
