//! Arithmetic on tick liquidity: checked changes of a signed 128-bit
//! accumulator, and the change that adding or removing liquidity over a range
//! of ticks makes to a pool.

use crate::event_processor::EventProcessorError;
use crate::pools::{
    find_tick,
    lemma_net_liquidity_push,
    lemma_net_liquidity_update,
    net_liquidity,
    net_liquidity_at,
    no_entry_before,
    tier_admits,
    with_net,
    tier_holds,
    ConcentratedPool,
    TickInfo,
    Tier,
};
use vstd::prelude::*;
use vstd::string::StringExecFns;

verus! {

/// Whether `current_tick` lies in the half-open range `[tick_lower, tick_upper)`.
pub open spec fn tick_in_range_spec(current_tick: int, tick_lower: int, tick_upper: int) -> bool {
    tick_lower <= current_tick < tick_upper
}

/// Lower bound inclusive, upper bound exclusive.
pub fn tick_in_range(current_tick: i32, tick_lower: i32, tick_upper: i32) -> (inside: bool)
    ensures
        inside == tick_in_range_spec(current_tick as int, tick_lower as int, tick_upper as int),
{
    current_tick >= tick_lower && current_tick < tick_upper
}

/// Whether `value` is a signed 128-bit integer.
pub open spec fn fits_i128(value: int) -> bool {
    i128::MIN <= value <= i128::MAX
}

/// Whether `value` is an unsigned 128-bit integer.
pub open spec fn fits_u128(value: int) -> bool {
    0 <= value <= u128::MAX
}

fn overflow_error(current_liquidity: i128, sign: &str, delta: i128) -> (error: EventProcessorError)
    ensures
        error is ArithmeticOverflow,
{
    let mut text = String::from_str("Tick liquidity overflow: ");
    text.append(current_liquidity.to_string().as_str());
    text.append(sign);
    text.append(delta.to_string().as_str());
    EventProcessorError::ArithmeticOverflow(text)
}

/// `current_liquidity + delta`, or `ArithmeticOverflow` where the sum is not a
/// signed 128-bit integer.
pub fn apply_liquidity_delta(current_liquidity: i128, delta: i128) -> (result: Result<
    i128,
    EventProcessorError,
>)
    ensures
        fits_i128(current_liquidity + delta) ==> result == Ok::<i128, EventProcessorError>(
            (current_liquidity + delta) as i128,
        ),
        !fits_i128(current_liquidity + delta) ==> result matches Err(
            EventProcessorError::ArithmeticOverflow(_),
        ),
{
    match current_liquidity.checked_add(delta) {
        Some(sum) => Ok(sum),
        None => Err(overflow_error(current_liquidity, " + ", delta)),
    }
}

/// `current_liquidity - delta`, or `ArithmeticOverflow` where the difference is
/// not a signed 128-bit integer.
pub fn remove_liquidity_delta(current_liquidity: i128, delta: i128) -> (result: Result<
    i128,
    EventProcessorError,
>)
    ensures
        fits_i128(current_liquidity - delta) ==> result == Ok::<i128, EventProcessorError>(
            (current_liquidity - delta) as i128,
        ),
        !fits_i128(current_liquidity - delta) ==> result matches Err(
            EventProcessorError::ArithmeticOverflow(_),
        ),
{
    match current_liquidity.checked_sub(delta) {
        Some(difference) => Ok(difference),
        None => Err(overflow_error(current_liquidity, " - ", delta)),
    }
}

/// `-delta`, or `ArithmeticOverflow` for the one value that has no negative.
pub fn negate_liquidity_delta(delta: i128) -> (result: Result<i128, EventProcessorError>)
    ensures
        delta != i128::MIN ==> result == Ok::<i128, EventProcessorError>((-delta) as i128),
        delta == i128::MIN ==> result matches Err(EventProcessorError::ArithmeticOverflow(_)),
{
    remove_liquidity_delta(0, delta)
}

/// The active liquidity after a signed change, or `ArithmeticOverflow` where
/// the sum is not an unsigned 128-bit integer.
pub fn apply_active_liquidity_delta(liquidity: u128, delta: i128) -> (result: Result<
    u128,
    EventProcessorError,
>)
    ensures
        fits_u128(liquidity + delta) ==> result == Ok::<u128, EventProcessorError>(
            (liquidity + delta) as u128,
        ),
        !fits_u128(liquidity + delta) ==> result matches Err(
            EventProcessorError::ArithmeticOverflow(_),
        ),
{
    match liquidity.checked_add_signed(delta) {
        Some(sum) => Ok(sum),
        None => {
            let mut text = String::from_str("Pool liquidity overflow: ");
            text.append(liquidity.to_string().as_str());
            text.append(" + ");
            text.append(delta.to_string().as_str());
            Err(EventProcessorError::ArithmeticOverflow(text))
        },
    }
}

/// Whether `ticks` has an entry for `tick`.
pub open spec fn has_entry(ticks: Seq<TickInfo>, tick: int) -> bool {
    !no_entry_before(ticks, tick, ticks.len() as int)
}

/// The net liquidity at `tick` after `delta` was added at `lower` and then
/// taken off at `upper`.
pub open spec fn range_net(ticks: Seq<TickInfo>, lower: int, upper: int, delta: int, tick: int) -> int {
    let raised = if tick == lower {
        net_liquidity(ticks, tick) + delta
    } else {
        net_liquidity(ticks, tick)
    };
    if tick == upper {
        raised - delta
    } else {
        raised
    }
}

/// The active liquidity of `pool` after `delta` was added over `[lower, upper)`:
/// changed only if the pool's current tick lies in the range.
pub open spec fn range_liquidity(pool: ConcentratedPool, lower: int, upper: int, delta: int) -> int {
    if tick_in_range_spec(pool.current_tick as int, lower, upper) {
        pool.liquidity + delta
    } else {
        pool.liquidity as int
    }
}

/// Whether adding `delta` over `[lower, upper)` leaves the range of one of the
/// accumulators: the net liquidity at `lower` once `delta` is added, the net
/// liquidity at `upper` once it is taken off, or the active liquidity.
pub open spec fn range_overflows(pool: ConcentratedPool, lower: int, upper: int, delta: int) -> bool {
    ||| !fits_i128(net_liquidity(pool.ticks@, lower) + delta)
    ||| !fits_i128(range_net(pool.ticks@, lower, upper, delta, upper))
    ||| !fits_u128(range_liquidity(pool, lower, upper, delta))
}

/// The number of tick entries that a change over `[lower, upper)` adds.
pub open spec fn range_new_entries(ticks: Seq<TickInfo>, lower: int, upper: int) -> nat {
    let at_lower: nat = if has_entry(ticks, lower) {
        0
    } else {
        1
    };
    let at_upper: nat = if has_entry(ticks, upper) || upper == lower {
        0
    } else {
        1
    };
    at_lower + at_upper
}

/// Whether a change over `[lower, upper)` needs more tick entries than a pool
/// of `tier` holds.
pub open spec fn range_exceeds(pool: ConcentratedPool, tier: Tier, lower: int, upper: int) -> bool {
    !tier_holds(
        tier,
        pool.ticks@.len() + range_new_entries(pool.ticks@, lower, upper),
        pool.tick_bitmaps@.len(),
    )
}

/// The tick entries after `delta` was added at `lower` and then taken off at
/// `upper`: each of the two ticks keeps its entry, or gets one at the end.
pub open spec fn range_ticks(ticks: Seq<TickInfo>, lower: int, upper: int, delta: int) -> Seq<
    TickInfo,
> {
    with_net(
        with_net(ticks, lower, net_liquidity(ticks, lower) + delta),
        upper,
        range_net(ticks, lower, upper, delta, upper),
    )
}

/// Whether `after` is `before` with `delta` added over `[lower, upper)`: the
/// net liquidity raised by `delta` at `lower` and lowered by it at `upper`,
/// the active liquidity changed if the current tick is in the range, and all
/// else as it was.
pub open spec fn range_applied(
    before: ConcentratedPool,
    after: ConcentratedPool,
    lower: int,
    upper: int,
    delta: int,
) -> bool {
    &&& after.identifier == before.identifier
    &&& after.sqrt_price_x96 == before.sqrt_price_x96
    &&& after.current_tick == before.current_tick
    &&& after.tick_bitmaps == before.tick_bitmaps
    &&& after.liquidity == range_liquidity(before, lower, upper, delta)
    &&& after.ticks@ == range_ticks(before.ticks@, lower, upper, delta)
    &&& after.ticks@.len() == before.ticks@.len() + range_new_entries(before.ticks@, lower, upper)
    &&& forall|tick: int| #[trigger]
        net_liquidity(after.ticks@, tick) == range_net(before.ticks@, lower, upper, delta, tick)
}

/// The values that a change over a range of ticks sets.
#[derive(Clone, Copy, Debug, PartialEq, Eq)]
pub struct RangeUpdate {
    pub tick_lower: i32,
    pub tick_upper: i32,
    pub net_lower: i128,
    pub net_upper: i128,
    pub liquidity: u128,
}

/// Works out what adding `delta` over `[tick_lower, tick_upper)` sets in
/// `pool`, which stands in `tier`. Fails with `ArithmeticOverflow` where an
/// accumulator would leave its range, else with `ArenaRegistry` where the pool
/// would outgrow its tier.
pub fn plan_range_delta(
    pool: &ConcentratedPool,
    tier: Tier,
    tick_lower: i32,
    tick_upper: i32,
    delta: i128,
) -> (result: Result<RangeUpdate, EventProcessorError>)
    ensures
        range_overflows(*pool, tick_lower as int, tick_upper as int, delta as int)
            ==> result matches Err(EventProcessorError::ArithmeticOverflow(_)),
        !range_overflows(*pool, tick_lower as int, tick_upper as int, delta as int)
            && range_exceeds(*pool, tier, tick_lower as int, tick_upper as int)
            ==> result matches Err(EventProcessorError::ArenaRegistry(_)),
        !range_overflows(*pool, tick_lower as int, tick_upper as int, delta as int)
            && !range_exceeds(*pool, tier, tick_lower as int, tick_upper as int) ==> result == Ok::<
            RangeUpdate,
            EventProcessorError,
        >(
            RangeUpdate {
                tick_lower,
                tick_upper,
                net_lower: (net_liquidity(pool.ticks@, tick_lower as int) + delta) as i128,
                net_upper: range_net(
                    pool.ticks@,
                    tick_lower as int,
                    tick_upper as int,
                    delta as int,
                    tick_upper as int,
                ) as i128,
                liquidity: range_liquidity(
                    *pool,
                    tick_lower as int,
                    tick_upper as int,
                    delta as int,
                ) as u128,
            },
        ),
{
    let net_lower = match apply_liquidity_delta(net_liquidity_at(&pool.ticks, tick_lower), delta) {
        Ok(net) => net,
        Err(error) => {
            return Err(error);
        },
    };
    let before_upper = if tick_upper == tick_lower {
        net_lower
    } else {
        net_liquidity_at(&pool.ticks, tick_upper)
    };
    let net_upper = match remove_liquidity_delta(before_upper, delta) {
        Ok(net) => net,
        Err(error) => {
            return Err(error);
        },
    };
    let liquidity = if tick_in_range(pool.current_tick, tick_lower, tick_upper) {
        match apply_active_liquidity_delta(pool.liquidity, delta) {
            Ok(sum) => sum,
            Err(error) => {
                return Err(error);
            },
        }
    } else {
        pool.liquidity
    };
    let mut entries: usize = pool.ticks.len();
    if find_tick(&pool.ticks, tick_lower).is_none() {
        entries = entries.saturating_add(1);
    }
    if tick_upper != tick_lower && find_tick(&pool.ticks, tick_upper).is_none() {
        entries = entries.saturating_add(1);
    }
    if !tier_admits(tier, entries, pool.tick_bitmaps.len()) {
        return Err(
            EventProcessorError::ArenaRegistry(
                String::from_str("Tick capacity of the tier exceeded"),
            ),
        );
    }
    Ok(RangeUpdate { tick_lower, tick_upper, net_lower, net_upper, liquidity })
}

/// Sets the net liquidity at `tick`: in the entry for it, or in a new entry
/// where there is none.
pub fn set_net_liquidity(ticks: &mut Vec<TickInfo>, tick: i32, net: i128)
    ensures
        final(ticks)@ == with_net(old(ticks)@, tick as int, net as int),
        forall|t: int| #[trigger]
            net_liquidity(final(ticks)@, t) == if t == tick {
                net as int
            } else {
                net_liquidity(old(ticks)@, t)
            },
        forall|t: int| #[trigger]
            has_entry(final(ticks)@, t) == (has_entry(old(ticks)@, t) || t == tick),
        final(ticks)@.len() == old(ticks)@.len() + if has_entry(old(ticks)@, tick as int) {
            0int
        } else {
            1int
        },
{
    let entry = TickInfo { index: tick, liquidity_net: net };
    match find_tick(ticks, tick) {
        Some(place) => {
            let slot = &mut ticks[place];
            slot.liquidity_net = net;
            proof {
                let before = old(ticks)@;
                assert(ticks@ =~= before.update(place as int, entry));
                assert forall|t: int| #[trigger]
                    net_liquidity(ticks@, t) == if t == tick {
                        net as int
                    } else {
                        net_liquidity(before, t)
                    } by {
                    lemma_net_liquidity_update(before, place as int, entry, t);
                }
                assert(before[place as int].index == tick);
                assert forall|t: int| #[trigger]
                    has_entry(ticks@, t) == (has_entry(before, t) || t == tick) by {
                    if has_entry(before, t) {
                        let k = choose|k: int| 0 <= k < before.len() && before[k].index == t;
                        assert(ticks@[k].index == t);
                    }
                    if has_entry(ticks@, t) {
                        let k = choose|k: int| 0 <= k < ticks@.len() && ticks@[k].index == t;
                        assert(before[k].index == t);
                    }
                }
            }
        },
        None => {
            ticks.push(entry);
            proof {
                let before = old(ticks)@;
                assert(ticks@ =~= with_net(before, tick as int, net as int));
                assert forall|t: int| #[trigger]
                    net_liquidity(ticks@, t) == if t == tick {
                        net as int
                    } else {
                        net_liquidity(before, t)
                    } by {
                    lemma_net_liquidity_push(before, entry, t);
                }
                assert forall|t: int| #[trigger]
                    has_entry(ticks@, t) == (has_entry(before, t) || t == tick) by {
                    if has_entry(before, t) {
                        let k = choose|k: int| 0 <= k < before.len() && before[k].index == t;
                        assert(ticks@[k].index == t);
                    }
                    if t == tick {
                        assert(ticks@[before.len() as int].index == t);
                    }
                    if has_entry(ticks@, t) && t != tick {
                        let k = choose|k: int| 0 <= k < ticks@.len() && ticks@[k].index == t;
                        assert(before[k].index == t);
                    }
                }
            }
        },
    }
}

/// Writes the values of a planned change into the pool.
pub fn commit_range_update(pool: &mut ConcentratedPool, update: RangeUpdate)
    ensures
        final(pool).identifier == old(pool).identifier,
        final(pool).sqrt_price_x96 == old(pool).sqrt_price_x96,
        final(pool).current_tick == old(pool).current_tick,
        final(pool).tick_bitmaps == old(pool).tick_bitmaps,
        final(pool).liquidity == update.liquidity,
        final(pool).ticks@ == with_net(
            with_net(old(pool).ticks@, update.tick_lower as int, update.net_lower as int),
            update.tick_upper as int,
            update.net_upper as int,
        ),
        final(pool).ticks@.len() == old(pool).ticks@.len() + range_new_entries(
            old(pool).ticks@,
            update.tick_lower as int,
            update.tick_upper as int,
        ),
        forall|tick: int| #[trigger]
            net_liquidity(final(pool).ticks@, tick) == if tick == update.tick_upper {
                update.net_upper as int
            } else if tick == update.tick_lower {
                update.net_lower as int
            } else {
                net_liquidity(old(pool).ticks@, tick)
            },
{
    set_net_liquidity(&mut pool.ticks, update.tick_lower, update.net_lower);
    let ghost between = pool.ticks@;
    assert(has_entry(between, update.tick_upper as int) == (has_entry(
        old(pool).ticks@,
        update.tick_upper as int,
    ) || update.tick_upper == update.tick_lower));
    set_net_liquidity(&mut pool.ticks, update.tick_upper, update.net_upper);
    pool.liquidity = update.liquidity;
    proof {
        assert forall|tick: int| #[trigger]
            net_liquidity(pool.ticks@, tick) == if tick == update.tick_upper {
                update.net_upper as int
            } else if tick == update.tick_lower {
                update.net_lower as int
            } else {
                net_liquidity(old(pool).ticks@, tick)
            } by {
            assert(net_liquidity(between, tick) == if tick == update.tick_lower {
                update.net_lower as int
            } else {
                net_liquidity(old(pool).ticks@, tick)
            });
        }
    }
}

/// Adding liquidity over a range and then removing the same amount over the
/// same range leaves the net liquidity at every tick, and the active
/// liquidity, as they were.
pub proof fn lemma_add_then_remove_restores(
    before: ConcentratedPool,
    added: ConcentratedPool,
    removed: ConcentratedPool,
    lower: int,
    upper: int,
    delta: int,
)
    requires
        range_applied(before, added, lower, upper, delta),
        range_applied(added, removed, lower, upper, -delta),
    ensures
        forall|tick: int| #[trigger]
            net_liquidity(removed.ticks@, tick) == net_liquidity(before.ticks@, tick),
        removed.liquidity == before.liquidity,
        removed.current_tick == before.current_tick,
        removed.sqrt_price_x96 == before.sqrt_price_x96,
{
    assert forall|tick: int| #[trigger]
        net_liquidity(removed.ticks@, tick) == net_liquidity(before.ticks@, tick) by {
        assert(net_liquidity(removed.ticks@, tick) == range_net(
            added.ticks@,
            lower,
            upper,
            -delta,
            tick,
        ));
        assert(net_liquidity(added.ticks@, tick) == range_net(
            before.ticks@,
            lower,
            upper,
            delta,
            tick,
        ));
    }
}

} // verus!
