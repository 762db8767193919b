//! The pools that the registry holds, and the sizing classes they fall into.

use crate::messages::PoolIdentifier;
use crate::wide::{U160, U256};
use vstd::prelude::*;

verus! {

/// The sizing class of a concentrated-liquidity pool.
#[derive(Clone, Copy, Debug, PartialEq, Eq, Structural)]
pub enum Tier {
    Low,
    Active,
    Popular,
    Major,
}

/// The most ticks a pool of the `Low` tier holds.
pub const LOW_TICK_CAPACITY: usize = 16;

/// The most ticks a pool of the `Active` tier holds.
pub const ACTIVE_TICK_CAPACITY: usize = 64;

/// The most ticks a pool of the `Popular` tier holds.
pub const POPULAR_TICK_CAPACITY: usize = 256;

/// The most bitmap words a pool of the `Low` tier holds.
pub const LOW_BITMAP_CAPACITY: usize = 4;

/// The most bitmap words a pool of the `Active` tier holds.
pub const ACTIVE_BITMAP_CAPACITY: usize = 16;

/// The most bitmap words a pool of the `Popular` tier holds.
pub const POPULAR_BITMAP_CAPACITY: usize = 64;

/// Whether a pool with that many ticks and bitmap words fits into `tier`. The
/// `Major` tier has no bound.
pub open spec fn tier_holds(tier: Tier, tick_count: nat, bitmap_count: nat) -> bool {
    match tier {
        Tier::Low => tick_count <= LOW_TICK_CAPACITY && bitmap_count <= LOW_BITMAP_CAPACITY,
        Tier::Active => tick_count <= ACTIVE_TICK_CAPACITY && bitmap_count
            <= ACTIVE_BITMAP_CAPACITY,
        Tier::Popular => tick_count <= POPULAR_TICK_CAPACITY && bitmap_count
            <= POPULAR_BITMAP_CAPACITY,
        Tier::Major => true,
    }
}

/// The smallest tier that holds a pool with that many ticks and bitmap words.
pub open spec fn tier_for(tick_count: nat, bitmap_count: nat) -> Tier {
    if tier_holds(Tier::Low, tick_count, bitmap_count) {
        Tier::Low
    } else if tier_holds(Tier::Active, tick_count, bitmap_count) {
        Tier::Active
    } else if tier_holds(Tier::Popular, tick_count, bitmap_count) {
        Tier::Popular
    } else {
        Tier::Major
    }
}

/// Whether a pool of `tier` may hold that many ticks and bitmap words.
pub fn tier_admits(tier: Tier, tick_count: usize, bitmap_count: usize) -> (fits: bool)
    ensures
        fits == tier_holds(tier, tick_count as nat, bitmap_count as nat),
{
    match tier {
        Tier::Low => tick_count <= LOW_TICK_CAPACITY && bitmap_count <= LOW_BITMAP_CAPACITY,
        Tier::Active => tick_count <= ACTIVE_TICK_CAPACITY && bitmap_count
            <= ACTIVE_BITMAP_CAPACITY,
        Tier::Popular => tick_count <= POPULAR_TICK_CAPACITY && bitmap_count
            <= POPULAR_BITMAP_CAPACITY,
        Tier::Major => true,
    }
}

/// The tier for a pool with that many ticks and bitmap words: the smallest
/// that holds both.
pub fn determine_tier(tick_count: usize, bitmap_count: usize) -> (tier: Tier)
    ensures
        tier == tier_for(tick_count as nat, bitmap_count as nat),
        tier_holds(tier, tick_count as nat, bitmap_count as nat),
{
    if tier_admits(Tier::Low, tick_count, bitmap_count) {
        Tier::Low
    } else if tier_admits(Tier::Active, tick_count, bitmap_count) {
        Tier::Active
    } else if tier_admits(Tier::Popular, tick_count, bitmap_count) {
        Tier::Popular
    } else {
        Tier::Major
    }
}

/// Whether two byte strings of twenty bytes are the same.
pub fn same_address(a: &[u8; 20], b: &[u8; 20]) -> (same: bool)
    ensures
        same == (*a == *b),
{
    let mut i: usize = 0;
    while i < 20
        invariant
            i <= 20,
            forall|k: int| 0 <= k < i ==> a@[k] == b@[k],
        decreases 20 - i,
    {
        if a[i] != b[i] {
            return false;
        }
        i += 1;
    }
    assert(a@ =~= b@);
    assert(*a =~= *b);
    true
}

/// Whether two byte strings of thirty-two bytes are the same.
pub fn same_pool_id(a: &[u8; 32], b: &[u8; 32]) -> (same: bool)
    ensures
        same == (*a == *b),
{
    let mut i: usize = 0;
    while i < 32
        invariant
            i <= 32,
            forall|k: int| 0 <= k < i ==> a@[k] == b@[k],
        decreases 32 - i,
    {
        if a[i] != b[i] {
            return false;
        }
        i += 1;
    }
    assert(a@ =~= b@);
    assert(*a =~= *b);
    true
}

/// Whether two identifiers are the same.
pub fn same_identifier(a: &PoolIdentifier, b: &PoolIdentifier) -> (same: bool)
    ensures
        same == (*a == *b),
{
    match (a, b) {
        (PoolIdentifier::Address(x), PoolIdentifier::Address(y)) => same_address(x, y),
        (PoolIdentifier::PoolId(x), PoolIdentifier::PoolId(y)) => same_pool_id(x, y),
        _ => false,
    }
}

/// A constant-product pair.
#[derive(Clone, Copy, Debug, PartialEq, Eq)]
pub struct V2Pool {
    pub address: [u8; 20],
    pub reserve0: U256,
    pub reserve1: U256,
    pub token0: [u8; 20],
    pub token1: [u8; 20],
}

/// The net liquidity that becomes active when the price crosses one tick.
#[derive(Clone, Copy, Debug, PartialEq, Eq)]
pub struct TickInfo {
    pub index: i32,
    pub liquidity_net: i128,
}

/// One word of the tick bitmap.
#[derive(Clone, Copy, Debug, PartialEq, Eq)]
pub struct TickBitmapWord {
    pub word_position: i16,
    pub bits: U256,
}

/// A concentrated-liquidity pool.
#[derive(Debug, PartialEq, Eq)]
pub struct ConcentratedPool {
    pub identifier: PoolIdentifier,
    pub sqrt_price_x96: U160,
    pub current_tick: i32,
    pub liquidity: u128,
    pub ticks: Vec<TickInfo>,
    pub tick_bitmaps: Vec<TickBitmapWord>,
}

/// The net liquidity recorded at `tick`: that of the first entry for it, and
/// zero where there is none.
pub open spec fn net_liquidity(ticks: Seq<TickInfo>, tick: int) -> int
    decreases ticks.len(),
{
    if ticks.len() == 0 {
        0
    } else if ticks[0].index == tick {
        ticks[0].liquidity_net as int
    } else {
        net_liquidity(ticks.drop_first(), tick)
    }
}

/// Whether no entry of `ticks` before place `end` is for `tick`.
pub open spec fn no_entry_before(ticks: Seq<TickInfo>, tick: int, end: int) -> bool {
    forall|k: int| 0 <= k < end ==> (#[trigger] ticks[k]).index != tick
}

/// The place of the first entry for `tick`, if there is one.
pub open spec fn first_entry(ticks: Seq<TickInfo>, tick: int) -> Option<int>
    decreases ticks.len(),
{
    if ticks.len() == 0 {
        None
    } else if ticks[0].index == tick {
        Some(0)
    } else {
        match first_entry(ticks.drop_first(), tick) {
            Some(place) => Some(place + 1),
            None => None,
        }
    }
}

/// The entries with the net liquidity at `tick` set to `net`: in the first
/// entry for the tick, or in a new entry at the end where there is none.
pub open spec fn with_net(ticks: Seq<TickInfo>, tick: int, net: int) -> Seq<TickInfo> {
    let entry = TickInfo { index: tick as i32, liquidity_net: net as i128 };
    match first_entry(ticks, tick) {
        Some(place) => ticks.update(place, entry),
        None => ticks.push(entry),
    }
}

/// The first entry for a tick is the one before which there is none.
pub proof fn lemma_first_entry(ticks: Seq<TickInfo>, tick: int, place: int)
    requires
        0 <= place <= ticks.len(),
        no_entry_before(ticks, tick, place),
        place < ticks.len() ==> ticks[place].index == tick,
    ensures
        first_entry(ticks, tick) == if place < ticks.len() {
            Some(place)
        } else {
            None
        },
    decreases place,
{
    if place > 0 {
        let rest = ticks.drop_first();
        assert(ticks[0].index != tick);
        assert forall|k: int| 0 <= k < place - 1 implies (#[trigger] rest[k]).index != tick by {
            assert(rest[k] == ticks[k + 1]);
        }
        if place < ticks.len() {
            assert(rest[place - 1] == ticks[place]);
        }
        lemma_first_entry(rest, tick, place - 1);
    }
}

/// Where there is no entry for a tick, its net liquidity is zero.
pub proof fn lemma_net_liquidity_absent(ticks: Seq<TickInfo>, tick: int)
    requires
        no_entry_before(ticks, tick, ticks.len() as int),
    ensures
        net_liquidity(ticks, tick) == 0,
    decreases ticks.len(),
{
    if ticks.len() > 0 {
        assert(ticks[0].index != tick);
        let rest = ticks.drop_first();
        assert forall|k: int| 0 <= k < rest.len() implies (#[trigger] rest[k]).index != tick by {
            assert(rest[k] == ticks[k + 1]);
        }
        lemma_net_liquidity_absent(rest, tick);
    }
}

/// The first entry for a tick is the one that counts.
pub proof fn lemma_net_liquidity_found(ticks: Seq<TickInfo>, place: int)
    requires
        0 <= place < ticks.len(),
        no_entry_before(ticks, ticks[place].index as int, place),
    ensures
        net_liquidity(ticks, ticks[place].index as int) == ticks[place].liquidity_net,
    decreases place,
{
    if place > 0 {
        let rest = ticks.drop_first();
        assert(ticks[0].index != ticks[place].index);
        assert(rest[place - 1] == ticks[place]);
        assert forall|k: int| 0 <= k < place - 1 implies (#[trigger] rest[k]).index
            != ticks[place].index by {
            assert(rest[k] == ticks[k + 1]);
        }
        lemma_net_liquidity_found(rest, place - 1);
    }
}

/// Rewriting the first entry for a tick changes the net liquidity there and
/// nowhere else.
pub proof fn lemma_net_liquidity_update(
    ticks: Seq<TickInfo>,
    place: int,
    entry: TickInfo,
    tick: int,
)
    requires
        0 <= place < ticks.len(),
        ticks[place].index == entry.index,
        no_entry_before(ticks, entry.index as int, place),
    ensures
        net_liquidity(ticks.update(place, entry), tick) == if tick == entry.index {
            entry.liquidity_net as int
        } else {
            net_liquidity(ticks, tick)
        },
    decreases place,
{
    let updated = ticks.update(place, entry);
    if place > 0 {
        let rest = ticks.drop_first();
        assert(ticks[0].index != entry.index);
        assert(updated[0] == ticks[0]);
        assert(updated.drop_first() =~= rest.update(place - 1, entry));
        assert(rest[place - 1] == ticks[place]);
        assert forall|k: int| 0 <= k < place - 1 implies (#[trigger] rest[k]).index
            != entry.index by {
            assert(rest[k] == ticks[k + 1]);
        }
        lemma_net_liquidity_update(rest, place - 1, entry, tick);
    } else {
        assert(updated.drop_first() =~= ticks.drop_first());
    }
}

/// Appending an entry for a tick that had none sets the net liquidity there
/// and changes it nowhere else.
pub proof fn lemma_net_liquidity_push(ticks: Seq<TickInfo>, entry: TickInfo, tick: int)
    requires
        no_entry_before(ticks, entry.index as int, ticks.len() as int),
    ensures
        net_liquidity(ticks.push(entry), tick) == if tick == entry.index {
            entry.liquidity_net as int
        } else {
            net_liquidity(ticks, tick)
        },
    decreases ticks.len(),
{
    let pushed = ticks.push(entry);
    if ticks.len() == 0 {
        assert(pushed.drop_first() =~= Seq::<TickInfo>::empty());
        assert(pushed[0] == entry);
        assert(net_liquidity(pushed.drop_first(), tick) == 0);
        assert(net_liquidity(ticks, tick) == 0);
    } else {
        let rest = ticks.drop_first();
        assert(ticks[0].index != entry.index);
        assert(pushed[0] == ticks[0]);
        assert(pushed.drop_first() =~= rest.push(entry));
        assert forall|k: int| 0 <= k < rest.len() implies (#[trigger] rest[k]).index
            != entry.index by {
            assert(rest[k] == ticks[k + 1]);
        }
        lemma_net_liquidity_push(rest, entry, tick);
    }
}

/// The place of the first entry for `tick`, if there is one.
pub fn find_tick(ticks: &Vec<TickInfo>, tick: i32) -> (place: Option<usize>)
    ensures
        match place {
            Some(p) => p < ticks@.len() && ticks@[p as int].index == tick && no_entry_before(
                ticks@,
                tick as int,
                p as int,
            ) && first_entry(ticks@, tick as int) == Some(p as int),
            None => no_entry_before(ticks@, tick as int, ticks@.len() as int) && first_entry(
                ticks@,
                tick as int,
            ) is None,
        },
{
    let mut i: usize = 0;
    while i < ticks.len()
        invariant
            i <= ticks@.len(),
            no_entry_before(ticks@, tick as int, i as int),
        decreases ticks@.len() - i,
    {
        if ticks[i].index == tick {
            proof {
                lemma_first_entry(ticks@, tick as int, i as int);
            }
            return Some(i);
        }
        i += 1;
    }
    proof {
        lemma_first_entry(ticks@, tick as int, i as int);
    }
    None
}

/// The net liquidity recorded at `tick`.
pub fn net_liquidity_at(ticks: &Vec<TickInfo>, tick: i32) -> (net: i128)
    ensures
        net == net_liquidity(ticks@, tick as int),
{
    match find_tick(ticks, tick) {
        Some(place) => {
            proof {
                lemma_net_liquidity_found(ticks@, place as int);
            }
            ticks[place].liquidity_net
        },
        None => {
            proof {
                lemma_net_liquidity_absent(ticks@, tick as int);
            }
            0
        },
    }
}

} // verus!
