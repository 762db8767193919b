//! The records that travel on the stream: pool events and the three block
//! framing messages, with the chronological order of events.

use crate::wide::{I256, U160};
use vstd::prelude::*;

verus! {

/// What a pool is known by: a 20-byte address or a 32-byte pool id.
#[derive(Clone, Copy, Debug, PartialEq, Eq)]
pub enum PoolIdentifier {
    Address([u8; 20]),
    PoolId([u8; 32]),
}

/// One observed change of a pool.
#[derive(Clone, Debug, PartialEq, Eq)]
pub struct PoolEvent {
    pub block_number: u64,
    pub transaction_index: u32,
    pub log_index: u32,
    pub protocol: String,
    pub event_type: String,
    pub pool_address: [u8; 20],
    pub pool_id: Option<[u8; 32]>,
    pub amount0: I256,
    pub amount1: I256,
    pub sqrt_price_x96: Option<U160>,
    pub tick: Option<i32>,
    pub liquidity: Option<u128>,
    pub tick_lower: Option<i32>,
    pub tick_upper: Option<i32>,
    pub liquidity_delta: Option<i128>,
    pub is_revert: bool,
}

/// One message of the stream.
#[derive(Clone, Debug, PartialEq, Eq)]
pub enum SocketMessage {
    BeginBlock { block_number: u64, is_revert: bool },
    PoolUpdate(PoolEvent),
    EndBlock { block_number: u64, num_updates: u64 },
}

/// `a` comes no later than `b`: the triples (block, transaction, log) compared
/// left to right.
pub open spec fn chrono_le(a: PoolEvent, b: PoolEvent) -> bool {
    a.block_number < b.block_number || (a.block_number == b.block_number && (a.transaction_index
        < b.transaction_index || (a.transaction_index == b.transaction_index && a.log_index
        <= b.log_index)))
}

/// `a` comes strictly before `b`.
pub open spec fn chrono_lt(a: PoolEvent, b: PoolEvent) -> bool {
    a.block_number < b.block_number || (a.block_number == b.block_number && (a.transaction_index
        < b.transaction_index || (a.transaction_index == b.transaction_index && a.log_index
        < b.log_index)))
}

/// `a` and `b` stand at the same place of the order.
pub open spec fn chrono_same(a: PoolEvent, b: PoolEvent) -> bool {
    a.block_number == b.block_number && a.transaction_index == b.transaction_index && a.log_index
        == b.log_index
}

/// No event of `s` comes later than one that follows it.
pub open spec fn chrono_sorted(s: Seq<PoolEvent>) -> bool {
    forall|i: int, j: int| 0 <= i < j < s.len() ==> chrono_le(#[trigger] s[i], #[trigger] s[j])
}

/// Every event of `s` comes strictly before those that follow it.
pub open spec fn chrono_strict(s: Seq<PoolEvent>) -> bool {
    forall|i: int, j: int| 0 <= i < j < s.len() ==> chrono_lt(#[trigger] s[i], #[trigger] s[j])
}

/// No two places of `s` hold events at the same place of the order.
pub open spec fn chrono_distinct(s: Seq<PoolEvent>) -> bool {
    forall|i: int, j: int|
        0 <= i < s.len() && 0 <= j < s.len() && i != j ==> !chrono_same(
            #[trigger] s[i],
            #[trigger] s[j],
        )
}

/// The events of `s` that stand where `at` stands, in the order they have in `s`.
pub open spec fn chrono_group(s: Seq<PoolEvent>, at: PoolEvent) -> Seq<PoolEvent> {
    s.filter(|e: PoolEvent| chrono_same(e, at))
}

/// Orders `events` by (block, transaction, log) with std's `sort_by_key`. As
/// std documents for it, the outcome holds the same events, in ascending order
/// of the key, and events with equal keys keep the order they came in.
#[verifier::external_body]
pub(crate) fn sort_chronologically(events: &mut Vec<PoolEvent>)
    ensures
        chrono_sorted(final(events)@),
        final(events)@.to_multiset() == old(events)@.to_multiset(),
        forall|at: PoolEvent| #[trigger]
            chrono_group(final(events)@, at) == chrono_group(old(events)@, at),
{
    events.sort_by_key(|e| (e.block_number, e.transaction_index, e.log_index));
}

/// A sorted sequence whose events stand at pairwise different places of the
/// order is strictly increasing.
pub proof fn lemma_sorted_distinct_is_strict(s: Seq<PoolEvent>)
    requires
        chrono_sorted(s),
        chrono_distinct(s),
    ensures
        chrono_strict(s),
{
    assert forall|i: int, j: int| 0 <= i < j < s.len() implies chrono_lt(
        #[trigger] s[i],
        #[trigger] s[j],
    ) by {
        assert(chrono_le(s[i], s[j]));
        assert(!chrono_same(s[i], s[j]));
    }
}

/// A value that stands at two places of a sequence occurs at least twice in it.
proof fn lemma_two_places_count(s: Seq<PoolEvent>, i: int, j: int)
    requires
        0 <= i < j < s.len(),
        s[i] == s[j],
    ensures
        s.to_multiset().count(s[i]) >= 2,
{
    broadcast use vstd::seq_lib::group_to_multiset_ensures;

    let shorter = s.remove(i);
    assert(shorter[j - 1] == s[j]);
    assert(shorter.contains(s[i]));
    assert(shorter.to_multiset().count(s[i]) > 0);
    assert(shorter.to_multiset() =~= s.to_multiset().remove(s[i]));
}

/// Reordering keeps the places apart: if no two events of `before` stand at
/// the same place of the order, no two events of a reordering of it do.
pub proof fn lemma_distinct_carries_over(before: Seq<PoolEvent>, after: Seq<PoolEvent>)
    requires
        chrono_distinct(before),
        after.to_multiset() == before.to_multiset(),
    ensures
        chrono_distinct(after),
{
    broadcast use vstd::seq_lib::group_to_multiset_ensures;

    assert forall|i: int, j: int|
        0 <= i < after.len() && 0 <= j < after.len() && i != j implies !chrono_same(
        #[trigger] after[i],
        #[trigger] after[j],
    ) by {
        if chrono_same(after[i], after[j]) {
            assert(after.contains(after[i]));
            assert(after.contains(after[j]));
            assert(before.to_multiset().count(after[i]) > 0);
            assert(before.to_multiset().count(after[j]) > 0);
            assert(before.contains(after[i]));
            assert(before.contains(after[j]));
            let p = choose|p: int| 0 <= p < before.len() && before[p] == after[i];
            let q = choose|q: int| 0 <= q < before.len() && before[q] == after[j];
            assert(chrono_same(before[p], before[q]));
            assert(p == q);
            assert(after[i] == after[j]);
            if i < j {
                lemma_two_places_count(after, i, j);
            } else {
                lemma_two_places_count(after, j, i);
            }
            assert(before.no_duplicates()) by {
                assert forall|x: int, y: int|
                    0 <= x < before.len() && 0 <= y < before.len() && x != y implies before[x]
                    != before[y] by {
                    assert(!chrono_same(before[x], before[y]));
                }
            }
            before.lemma_multiset_has_no_duplicates();
            assert(false);
        }
    }
}

/// Events that stood at pairwise different places of the order come out of a
/// chronological sort strictly increasing.
pub proof fn lemma_sort_of_distinct_is_strict(before: Seq<PoolEvent>, after: Seq<PoolEvent>)
    requires
        chrono_distinct(before),
        chrono_sorted(after),
        after.to_multiset() == before.to_multiset(),
    ensures
        chrono_strict(after),
{
    lemma_distinct_carries_over(before, after);
    lemma_sorted_distinct_is_strict(after);
}

/// Two strictly increasing sequences of the same events are the same sequence.
pub proof fn lemma_strict_order_unique(a: Seq<PoolEvent>, b: Seq<PoolEvent>)
    requires
        chrono_strict(a),
        chrono_strict(b),
        a.to_multiset() == b.to_multiset(),
    ensures
        a == b,
    decreases a.len(),
{
    broadcast use vstd::seq_lib::group_to_multiset_ensures;

    assert(a.to_multiset().len() == a.len());
    assert(b.to_multiset().len() == b.len());
    if a.len() == 0 {
        assert(a =~= b);
    } else {
        assert(a.contains(a[0]));
        assert(b.contains(b[0]));
        assert(b.to_multiset().count(a[0]) > 0);
        assert(a.to_multiset().count(b[0]) > 0);
        assert(b.contains(a[0]));
        assert(a.contains(b[0]));
        let i = choose|i: int| 0 <= i < a.len() && a[i] == b[0];
        let j = choose|j: int| 0 <= j < b.len() && b[j] == a[0];
        if i != 0 {
            assert(chrono_lt(a[0], a[i]));
            if j != 0 {
                assert(chrono_lt(b[0], b[j]));
            }
            assert(false);
        }
        assert(a[0] == b[0]);
        let a_rest = a.remove(0);
        let b_rest = b.remove(0);
        assert(a_rest.to_multiset() =~= a.to_multiset().remove(a[0]));
        assert(b_rest.to_multiset() =~= b.to_multiset().remove(b[0]));
        assert(chrono_strict(a_rest)) by {
            assert forall|x: int, y: int| 0 <= x < y < a_rest.len() implies chrono_lt(
                #[trigger] a_rest[x],
                #[trigger] a_rest[y],
            ) by {
                assert(a_rest[x] == a[x + 1] && a_rest[y] == a[y + 1]);
            }
        }
        assert(chrono_strict(b_rest)) by {
            assert forall|x: int, y: int| 0 <= x < y < b_rest.len() implies chrono_lt(
                #[trigger] b_rest[x],
                #[trigger] b_rest[y],
            ) by {
                assert(b_rest[x] == b[x + 1] && b_rest[y] == b[y + 1]);
            }
        }
        lemma_strict_order_unique(a_rest, b_rest);
        assert(a =~= b) by {
            assert forall|k: int| 0 <= k < a.len() implies a[k] == b[k] by {
                if k > 0 {
                    assert(a[k] == a_rest[k - 1]);
                    assert(b[k] == b_rest[k - 1]);
                }
            }
        }
    }
}

/// Sorting brings back the emitter's order: if `emitted` is strictly
/// increasing and `shuffled` holds the same events in any order, the
/// chronological sort of `shuffled` is `emitted`.
pub proof fn lemma_sort_restores_emitted_order(
    emitted: Seq<PoolEvent>,
    shuffled: Seq<PoolEvent>,
    sorted: Seq<PoolEvent>,
)
    requires
        chrono_strict(emitted),
        shuffled.to_multiset() == emitted.to_multiset(),
        chrono_sorted(sorted),
        sorted.to_multiset() == shuffled.to_multiset(),
    ensures
        sorted == emitted,
{
    assert(chrono_distinct(emitted)) by {
        assert forall|i: int, j: int|
            0 <= i < emitted.len() && 0 <= j < emitted.len() && i != j implies !chrono_same(
            #[trigger] emitted[i],
            #[trigger] emitted[j],
        ) by {
            if i < j {
                assert(chrono_lt(emitted[i], emitted[j]));
            } else {
                assert(chrono_lt(emitted[j], emitted[i]));
            }
        }
    }
    lemma_sort_of_distinct_is_strict(emitted, sorted);
    lemma_strict_order_unique(sorted, emitted);
}

} // verus!
