//! The event processor: it applies one pool event at a time to the registry,
//! routed by protocol and event type, and counts what it did.

use crate::messages::{PoolEvent, PoolIdentifier};
use crate::pools::ConcentratedPool;
use crate::registry::{
    lemma_kept_pairs_keep_places,
    lemma_kept_pools_keep_locations,
    lemma_replace_keeps_order,
    Family,
    PoolArenaRegistry,
    PoolLocation,
};
use crate::text::str_equals;
use crate::tick_math::{
    commit_range_update,
    negate_liquidity_delta,
    plan_range_delta,
    range_applied,
    range_exceeds,
    range_overflows,
};
use crate::wide::{
    lemma_limbs_value_bounds,
    lemma_limbs_value_injective,
    two_pow_256,
    I256,
    U256,
};
use vstd::prelude::*;
use vstd::string::StringExecFns;

verus! {

/// Why an event was not applied.
#[derive(Debug, PartialEq, Eq)]
pub enum EventProcessorError {
    /// No pool with this identifier is held.
    PoolNotFound(PoolIdentifier),
    /// A field that the event needs is missing: its name.
    InvalidEventData(String),
    /// The protocol is none of the three known: its name.
    UnsupportedProtocol(String),
    /// The protocol has no such event: the family and the event type.
    UnsupportedEventType(String),
    /// The pool would outgrow its place in the registry.
    ArenaRegistry(String),
    /// A reserve or a liquidity accumulator would leave its range.
    ArithmeticOverflow(String),
}

/// Counts of the events processed, by kind.
#[derive(Clone, Copy, Debug, PartialEq, Eq)]
pub struct EventProcessorStats {
    pub v2_swaps_processed: u64,
    pub v2_mints_processed: u64,
    pub v2_burns_processed: u64,
    pub v3_swaps_processed: u64,
    pub v3_mints_processed: u64,
    pub v3_burns_processed: u64,
    pub v4_swaps_processed: u64,
    pub v4_mints_processed: u64,
    pub v4_burns_processed: u64,
    pub v4_modify_liquidity_processed: u64,
    pub reverts_processed: u64,
    pub errors: u64,
}

/// All counts at zero.
pub open spec fn no_events() -> EventProcessorStats {
    EventProcessorStats {
        v2_swaps_processed: 0,
        v2_mints_processed: 0,
        v2_burns_processed: 0,
        v3_swaps_processed: 0,
        v3_mints_processed: 0,
        v3_burns_processed: 0,
        v4_swaps_processed: 0,
        v4_mints_processed: 0,
        v4_burns_processed: 0,
        v4_modify_liquidity_processed: 0,
        reverts_processed: 0,
        errors: 0,
    }
}

impl Default for EventProcessorStats {
    fn default() -> (stats: EventProcessorStats)
        ensures
            stats == no_events(),
    {
        EventProcessorStats {
            v2_swaps_processed: 0,
            v2_mints_processed: 0,
            v2_burns_processed: 0,
            v3_swaps_processed: 0,
            v3_mints_processed: 0,
            v3_burns_processed: 0,
            v4_swaps_processed: 0,
            v4_mints_processed: 0,
            v4_burns_processed: 0,
            v4_modify_liquidity_processed: 0,
            reverts_processed: 0,
            errors: 0,
        }
    }
}

/// A count one higher, unless it stands at the largest value already.
pub open spec fn bumped(count: u64) -> u64 {
    if count < u64::MAX {
        (count + 1) as u64
    } else {
        count
    }
}

fn bump(count: u64) -> (next: u64)
    ensures
        next == bumped(count),
{
    count.saturating_add(1)
}

/// The handler that an event goes to.
pub enum Route {
    Revert,
    V2Swap,
    V2Mint,
    V2Burn,
    V3Swap,
    V3Mint,
    V3Burn,
    V4Swap,
    V4ModifyLiquidity,
    /// A known protocol, and an event type that it does not have.
    UnsupportedEventType,
    UnsupportedProtocol,
}

/// Where an event of the first protocol goes, by its type.
pub open spec fn v2_route(event: PoolEvent) -> Route {
    if event.event_type@ == "Swap"@ {
        Route::V2Swap
    } else if event.event_type@ == "Mint"@ {
        Route::V2Mint
    } else if event.event_type@ == "Burn"@ {
        Route::V2Burn
    } else {
        Route::UnsupportedEventType
    }
}

/// Where an event of the second protocol goes, by its type.
pub open spec fn v3_route(event: PoolEvent) -> Route {
    if event.event_type@ == "Swap"@ {
        Route::V3Swap
    } else if event.event_type@ == "Mint"@ {
        Route::V3Mint
    } else if event.event_type@ == "Burn"@ {
        Route::V3Burn
    } else {
        Route::UnsupportedEventType
    }
}

/// Where an event of the third protocol goes, by its type.
pub open spec fn v4_route(event: PoolEvent) -> Route {
    if event.event_type@ == "Swap"@ {
        Route::V4Swap
    } else if event.event_type@ == "ModifyLiquidity"@ {
        Route::V4ModifyLiquidity
    } else {
        Route::UnsupportedEventType
    }
}

/// Where an event goes: a revert is only counted; any other is routed by its
/// protocol, then by its type.
pub open spec fn route_of(event: PoolEvent) -> Route {
    if event.is_revert {
        Route::Revert
    } else if event.protocol@ == "uniswap_v2"@ {
        v2_route(event)
    } else if event.protocol@ == "uniswap_v3"@ {
        v3_route(event)
    } else if event.protocol@ == "uniswap_v4"@ {
        v4_route(event)
    } else {
        Route::UnsupportedProtocol
    }
}

/// The counts after an event of `route` was applied.
pub open spec fn count_applied(stats: EventProcessorStats, route: Route) -> EventProcessorStats {
    match route {
        Route::Revert => EventProcessorStats {
            reverts_processed: bumped(stats.reverts_processed),
            ..stats
        },
        Route::V2Swap => EventProcessorStats {
            v2_swaps_processed: bumped(stats.v2_swaps_processed),
            ..stats
        },
        Route::V2Mint => EventProcessorStats {
            v2_mints_processed: bumped(stats.v2_mints_processed),
            ..stats
        },
        Route::V2Burn => EventProcessorStats {
            v2_burns_processed: bumped(stats.v2_burns_processed),
            ..stats
        },
        Route::V3Swap => EventProcessorStats {
            v3_swaps_processed: bumped(stats.v3_swaps_processed),
            ..stats
        },
        Route::V3Mint => EventProcessorStats {
            v3_mints_processed: bumped(stats.v3_mints_processed),
            ..stats
        },
        Route::V3Burn => EventProcessorStats {
            v3_burns_processed: bumped(stats.v3_burns_processed),
            ..stats
        },
        Route::V4Swap => EventProcessorStats {
            v4_swaps_processed: bumped(stats.v4_swaps_processed),
            ..stats
        },
        Route::V4ModifyLiquidity => EventProcessorStats {
            v4_modify_liquidity_processed: bumped(stats.v4_modify_liquidity_processed),
            ..stats
        },
        Route::UnsupportedEventType => stats,
        Route::UnsupportedProtocol => stats,
    }
}

/// The counts after a handler ran: its own count is one higher if it applied
/// the event, and nothing is changed if it did not.
pub open spec fn counted(stats: EventProcessorStats, route: Route, applied: bool) -> EventProcessorStats {
    if applied {
        count_applied(stats, route)
    } else {
        stats
    }
}

/// The counts after an event was processed: the count of its kind is one
/// higher if it was applied, the count of errors if it was not.
pub open spec fn stats_after(stats: EventProcessorStats, route: Route, applied: bool) -> EventProcessorStats {
    if applied {
        count_applied(stats, route)
    } else {
        EventProcessorStats { errors: bumped(stats.errors), ..stats }
    }
}

/// Whether `value` is an unsigned 256-bit integer.
pub open spec fn fits_u256(value: int) -> bool {
    0 <= value < two_pow_256()
}

/// A reserve after an amount was put in, or, for `take`, taken out.
pub open spec fn reserve_after(reserve: U256, amount: I256, take: bool) -> int {
    if take {
        reserve@ - amount@
    } else {
        reserve@ + amount@
    }
}

/// What a change of a pair's reserves comes to. Where no pair stands at the
/// event's address the registry is unchanged and the pool reported missing;
/// where a reserve would leave its range the registry is unchanged and an
/// overflow reported; otherwise the two amounts of the event are added to the
/// pair's reserves (for `take`: subtracted from them) and nothing else changes.
pub open spec fn pair_change_applied(
    before: &PoolArenaRegistry,
    after: &PoolArenaRegistry,
    event: PoolEvent,
    take: bool,
    result: Result<(), EventProcessorError>,
) -> bool {
    match before.locate_pair(event.pool_address) {
        None => result == Err::<(), EventProcessorError>(
            EventProcessorError::PoolNotFound(PoolIdentifier::Address(event.pool_address)),
        ) && *after == *before,
        Some(index) => {
            let pair = before.v2_pools()[index];
            let reserve0 = reserve_after(pair.reserve0, event.amount0, take);
            let reserve1 = reserve_after(pair.reserve1, event.amount1, take);
            if fits_u256(reserve0) && fits_u256(reserve1) {
                &&& result is Ok
                &&& after.same_concentrated(before)
                &&& after.v2_pools().len() == before.v2_pools().len()
                &&& forall|other: int|
                    0 <= other < before.v2_pools().len() && other != index
                        ==> #[trigger] after.v2_pools()[other] == before.v2_pools()[other]
                &&& after.v2_pools()[index].address == pair.address
                &&& after.v2_pools()[index].token0 == pair.token0
                &&& after.v2_pools()[index].token1 == pair.token1
                &&& after.v2_pools()[index].reserve0@ == reserve0
                &&& after.v2_pools()[index].reserve1@ == reserve1
            } else {
                (result matches Err(EventProcessorError::ArithmeticOverflow(_))) && *after
                    == *before
            }
        },
    }
}

/// The identifier by which an event names a pool of `family`.
pub open spec fn named_pool(family: Family, event: PoolEvent) -> PoolIdentifier {
    match family {
        Family::V3 => PoolIdentifier::Address(event.pool_address),
        Family::V4 => PoolIdentifier::PoolId(event.pool_id.unwrap()),
    }
}

/// The first field that a swap of `family` needs and `event` lacks.
pub open spec fn swap_missing(family: Family, event: PoolEvent) -> Option<Seq<char>> {
    if family == Family::V4 && event.pool_id is None {
        Some("pool_id"@)
    } else if event.sqrt_price_x96 is None {
        Some("sqrt_price_x96"@)
    } else if event.tick is None {
        Some("tick"@)
    } else if event.liquidity is None {
        Some("liquidity"@)
    } else {
        None
    }
}

/// The first field that a change of liquidity over a range needs and `event`
/// lacks.
pub open spec fn range_missing(family: Family, event: PoolEvent) -> Option<Seq<char>> {
    if family == Family::V4 && event.pool_id is None {
        Some("pool_id"@)
    } else if event.tick_lower is None {
        Some("tick_lower"@)
    } else if event.tick_upper is None {
        Some("tick_upper"@)
    } else if event.liquidity_delta is None {
        Some("liquidity_delta"@)
    } else {
        None
    }
}

/// What a swap comes to. A missing field is reported by name, then a missing
/// pool, the registry unchanged in both cases; otherwise the pool's price,
/// current tick and active liquidity are those of the event and nothing else
/// changes.
pub open spec fn swap_applied(
    before: &PoolArenaRegistry,
    after: &PoolArenaRegistry,
    family: Family,
    event: PoolEvent,
    result: Result<(), EventProcessorError>,
) -> bool {
    match swap_missing(family, event) {
        Some(field) => (result matches Err(EventProcessorError::InvalidEventData(name)) && name@
            == field) && *after == *before,
        None => match before.locate(family, named_pool(family, event)) {
            None => result == Err::<(), EventProcessorError>(
                EventProcessorError::PoolNotFound(named_pool(family, event)),
            ) && *after == *before,
            Some(location) => result is Ok && after.replaces(
                before,
                family,
                location,
                ConcentratedPool {
                    sqrt_price_x96: event.sqrt_price_x96.unwrap(),
                    current_tick: event.tick.unwrap(),
                    liquidity: event.liquidity.unwrap(),
                    ..before.pool_at(family, location)
                },
            ),
        },
    }
}

/// What a change of liquidity over a range comes to. A missing field is
/// reported by name, then a missing pool, then an overflow (for `negate`, also
/// that of a delta without a negative), then a pool that would outgrow its
/// tier, the registry unchanged in all these cases; otherwise the event's
/// delta (for `negate`, its negative) is added over the event's range in the
/// pool and nothing else changes.
pub open spec fn range_change_applied(
    before: &PoolArenaRegistry,
    after: &PoolArenaRegistry,
    family: Family,
    event: PoolEvent,
    negate: bool,
    result: Result<(), EventProcessorError>,
) -> bool {
    match range_missing(family, event) {
        Some(field) => (result matches Err(EventProcessorError::InvalidEventData(name)) && name@
            == field) && *after == *before,
        None => match before.locate(family, named_pool(family, event)) {
            None => result == Err::<(), EventProcessorError>(
                EventProcessorError::PoolNotFound(named_pool(family, event)),
            ) && *after == *before,
            Some(location) => {
                let pool = before.pool_at(family, location);
                let lower = event.tick_lower.unwrap() as int;
                let upper = event.tick_upper.unwrap() as int;
                let delta: int = if negate {
                    -event.liquidity_delta.unwrap()
                } else {
                    event.liquidity_delta.unwrap() as int
                };
                if delta > i128::MAX || range_overflows(pool, lower, upper, delta) {
                    (result matches Err(EventProcessorError::ArithmeticOverflow(_))) && *after
                        == *before
                } else if range_exceeds(pool, location.tier, lower, upper) {
                    (result matches Err(EventProcessorError::ArenaRegistry(_))) && *after
                        == *before
                } else {
                    &&& result is Ok
                    &&& after.replaces(before, family, location, after.pool_at(family, location))
                    &&& range_applied(pool, after.pool_at(family, location), lower, upper, delta)
                }
            },
        },
    }
}

/// What handling an event of `route` comes to in the registry.
pub open spec fn handled(
    before: &PoolArenaRegistry,
    after: &PoolArenaRegistry,
    event: PoolEvent,
    route: Route,
    result: Result<(), EventProcessorError>,
) -> bool {
    match route {
        Route::Revert => result is Ok && *after == *before,
        Route::V2Swap => pair_change_applied(before, after, event, false, result),
        Route::V2Mint => pair_change_applied(before, after, event, false, result),
        Route::V2Burn => pair_change_applied(before, after, event, true, result),
        Route::V3Swap => swap_applied(before, after, Family::V3, event, result),
        Route::V3Mint => range_change_applied(before, after, Family::V3, event, false, result),
        Route::V3Burn => range_change_applied(before, after, Family::V3, event, true, result),
        Route::V4Swap => swap_applied(before, after, Family::V4, event, result),
        Route::V4ModifyLiquidity => range_change_applied(
            before,
            after,
            Family::V4,
            event,
            false,
            result,
        ),
        Route::UnsupportedEventType => (result matches Err(
            EventProcessorError::UnsupportedEventType(name),
        ) && name@ == family_label(event) + event.event_type@) && *after == *before,
        Route::UnsupportedProtocol => (result matches Err(
            EventProcessorError::UnsupportedProtocol(name),
        ) && name@ == event.protocol@) && *after == *before,
    }
}

/// How an unsupported event type names the protocol it was looked up in.
pub open spec fn family_label(event: PoolEvent) -> Seq<char> {
    if event.protocol@ == "uniswap_v2"@ {
        "V2 "@
    } else if event.protocol@ == "uniswap_v3"@ {
        "V3 "@
    } else {
        "V4 "@
    }
}

/// What processing one event comes to: the registry as the event's handler
/// leaves it, and the counts with that of the event's kind, or that of errors,
/// one higher.
pub open spec fn processed(
    stats_before: EventProcessorStats,
    before: &PoolArenaRegistry,
    event: PoolEvent,
    stats_now: EventProcessorStats,
    after: &PoolArenaRegistry,
    result: Result<(), EventProcessorError>,
) -> bool {
    handled(before, after, event, route_of(event), result) && stats_now == stats_after(
        stats_before,
        route_of(event),
        result is Ok,
    )
}

/// The errors collected so far, with that of `result` if it is one.
pub open spec fn collected(
    errors: Seq<EventProcessorError>,
    result: Result<(), EventProcessorError>,
) -> Seq<EventProcessorError> {
    match result {
        Ok(_) => errors,
        Err(error) => errors.push(error),
    }
}

/// What processing a batch comes to: each event is processed on what the one
/// before it left, whether that one failed or not, and the errors are
/// collected in the order of the events.
pub open spec fn batch_processed(
    stats_before: EventProcessorStats,
    before: PoolArenaRegistry,
    events: Seq<PoolEvent>,
    stats_now: EventProcessorStats,
    after: PoolArenaRegistry,
    errors: Seq<EventProcessorError>,
) -> bool
    decreases events.len(),
{
    if events.len() == 0 {
        stats_now == stats_before && after == before && errors == Seq::<
            EventProcessorError,
        >::empty()
    } else {
        exists|
            stats_between: EventProcessorStats,
            between: PoolArenaRegistry,
            earlier: Seq<EventProcessorError>,
            result: Result<(), EventProcessorError>,
        |
            #![trigger processed(stats_between, &between, events.last(), stats_now, &after, result), collected(earlier, result)]
            batch_processed(
                stats_before,
                before,
                events.drop_last(),
                stats_between,
                between,
                earlier,
            ) && between.wf() && processed(
                stats_between,
                &between,
                events.last(),
                stats_now,
                &after,
                result,
            ) && errors == collected(earlier, result)
    }
}

/// Applies pool events to a registry and counts them.
pub struct EventProcessor {
    pub stats: EventProcessorStats,
}

fn missing_field(name: &str) -> (error: EventProcessorError)
    ensures
        error matches EventProcessorError::InvalidEventData(text) && text@ == name@,
{
    EventProcessorError::InvalidEventData(String::from_str(name))
}

/// Adds the event's amounts to the reserves of the pair at the event's
/// address, or, for `take`, subtracts them.
pub fn apply_pair_change(registry: &mut PoolArenaRegistry, event: &PoolEvent, take: bool) -> (result:
    Result<(), EventProcessorError>)
    requires
        old(registry).wf(),
    ensures
        final(registry).wf(),
        pair_change_applied(old(registry), final(registry), *event, take, result),
{
    let location = match registry.get_v2_pool_location(event.pool_address) {
        Some(location) => location,
        None => {
            return Err(
                EventProcessorError::PoolNotFound(PoolIdentifier::Address(event.pool_address)),
            );
        },
    };
    proof {
        let index = registry.locate_pair(event.pool_address).unwrap();
        assert(registry.pair_stands_at(event.pool_address, index));
    }
    let pair = registry.v2_pool(location.index);
    let (reserve0, reserve1) = if take {
        (
            pair.reserve0.checked_sub_signed(&event.amount0),
            pair.reserve1.checked_sub_signed(&event.amount1),
        )
    } else {
        (
            pair.reserve0.checked_add_signed(&event.amount0),
            pair.reserve1.checked_add_signed(&event.amount1),
        )
    };
    match (reserve0, reserve1) {
        (Some(reserve0), Some(reserve1)) => {
            registry.set_v2_reserves(location.index, reserve0, reserve1);
            Ok(())
        },
        _ => Err(EventProcessorError::ArithmeticOverflow(String::from_str("Reserve overflow"))),
    }
}

/// Sets the price, the current tick and the active liquidity of the pool that
/// the event names to those of the event.
pub fn apply_swap(registry: &mut PoolArenaRegistry, family: Family, event: &PoolEvent) -> (result:
    Result<(), EventProcessorError>)
    requires
        old(registry).wf(),
    ensures
        final(registry).wf(),
        swap_applied(old(registry), final(registry), family, *event, result),
{
    let identifier = match family {
        Family::V3 => PoolIdentifier::Address(event.pool_address),
        Family::V4 => match event.pool_id {
            Some(pool_id) => PoolIdentifier::PoolId(pool_id),
            None => {
                return Err(missing_field("pool_id"));
            },
        },
    };
    let sqrt_price_x96 = match event.sqrt_price_x96 {
        Some(price) => price,
        None => {
            return Err(missing_field("sqrt_price_x96"));
        },
    };
    let tick = match event.tick {
        Some(tick) => tick,
        None => {
            return Err(missing_field("tick"));
        },
    };
    let liquidity = match event.liquidity {
        Some(liquidity) => liquidity,
        None => {
            return Err(missing_field("liquidity"));
        },
    };
    let location = match registry.find(family, &identifier) {
        Some(location) => location,
        None => {
            return Err(EventProcessorError::PoolNotFound(identifier));
        },
    };
    let pool = registry.pool_mut(family, location);
    pool.sqrt_price_x96 = sqrt_price_x96;
    pool.current_tick = tick;
    pool.liquidity = liquidity;
    proof {
        lemma_replace_keeps_order(
            old(registry),
            registry,
            family,
            location,
            registry.pool_at(family, location),
        );
    }
    Ok(())
}

/// Adds the event's liquidity delta, or for `negate` its negative, over the
/// event's range of ticks in the pool that the event names.
pub fn apply_range_change(
    registry: &mut PoolArenaRegistry,
    family: Family,
    event: &PoolEvent,
    negate: bool,
) -> (result: Result<(), EventProcessorError>)
    requires
        old(registry).wf(),
    ensures
        final(registry).wf(),
        range_change_applied(old(registry), final(registry), family, *event, negate, result),
{
    let identifier = match family {
        Family::V3 => PoolIdentifier::Address(event.pool_address),
        Family::V4 => match event.pool_id {
            Some(pool_id) => PoolIdentifier::PoolId(pool_id),
            None => {
                return Err(missing_field("pool_id"));
            },
        },
    };
    let tick_lower = match event.tick_lower {
        Some(tick) => tick,
        None => {
            return Err(missing_field("tick_lower"));
        },
    };
    let tick_upper = match event.tick_upper {
        Some(tick) => tick,
        None => {
            return Err(missing_field("tick_upper"));
        },
    };
    let liquidity_delta = match event.liquidity_delta {
        Some(delta) => delta,
        None => {
            return Err(missing_field("liquidity_delta"));
        },
    };
    let location = match registry.find(family, &identifier) {
        Some(location) => location,
        None => {
            return Err(EventProcessorError::PoolNotFound(identifier));
        },
    };
    let delta = if negate {
        match negate_liquidity_delta(liquidity_delta) {
            Ok(negated) => negated,
            Err(error) => {
                return Err(error);
            },
        }
    } else {
        liquidity_delta
    };
    let update = match plan_range_delta(
        registry.pool(family, location),
        location.tier,
        tick_lower,
        tick_upper,
        delta,
    ) {
        Ok(update) => update,
        Err(error) => {
            return Err(error);
        },
    };
    let pool = registry.pool_mut(family, location);
    commit_range_update(pool, update);
    proof {
        lemma_replace_keeps_order(
            old(registry),
            registry,
            family,
            location,
            registry.pool_at(family, location),
        );
    }
    Ok(())
}

impl EventProcessor {
    /// A processor that has counted nothing.
    pub fn new() -> (processor: EventProcessor)
        ensures
            processor.stats == no_events(),
    {
        EventProcessor { stats: EventProcessorStats::default() }
    }

    /// The counts.
    pub fn stats(&self) -> (stats: &EventProcessorStats)
        ensures
            *stats == self.stats,
    {
        &self.stats
    }

    /// Sets all counts to zero.
    pub fn reset_stats(&mut self)
        ensures
            final(self).stats == no_events(),
    {
        self.stats = EventProcessorStats::default();
    }

    /// Applies a swap of a constant-product pair: the signed amounts of the
    /// event are added to the two reserves.
    pub fn process_v2_swap(&mut self, registry: &mut PoolArenaRegistry, event: &PoolEvent) -> (result:
        Result<(), EventProcessorError>)
        requires
            old(registry).wf(),
        ensures
            final(registry).wf(),
            pair_change_applied(old(registry), final(registry), *event, false, result),
            final(self).stats == counted(old(self).stats, Route::V2Swap, result is Ok),
    {
        let result = apply_pair_change(registry, event, false);
        if result.is_ok() {
            self.stats.v2_swaps_processed = bump(self.stats.v2_swaps_processed);
        }
        result
    }

    /// Applies a mint of a constant-product pair: the amounts of the event are
    /// added to the two reserves.
    pub fn process_v2_mint(&mut self, registry: &mut PoolArenaRegistry, event: &PoolEvent) -> (result:
        Result<(), EventProcessorError>)
        requires
            old(registry).wf(),
        ensures
            final(registry).wf(),
            pair_change_applied(old(registry), final(registry), *event, false, result),
            final(self).stats == counted(old(self).stats, Route::V2Mint, result is Ok),
    {
        let result = apply_pair_change(registry, event, false);
        if result.is_ok() {
            self.stats.v2_mints_processed = bump(self.stats.v2_mints_processed);
        }
        result
    }

    /// Applies a burn of a constant-product pair: the amounts of the event are
    /// subtracted from the two reserves.
    pub fn process_v2_burn(&mut self, registry: &mut PoolArenaRegistry, event: &PoolEvent) -> (result:
        Result<(), EventProcessorError>)
        requires
            old(registry).wf(),
        ensures
            final(registry).wf(),
            pair_change_applied(old(registry), final(registry), *event, true, result),
            final(self).stats == counted(old(self).stats, Route::V2Burn, result is Ok),
    {
        let result = apply_pair_change(registry, event, true);
        if result.is_ok() {
            self.stats.v2_burns_processed = bump(self.stats.v2_burns_processed);
        }
        result
    }

    /// Routes an event of the first protocol by its type.
    fn process_v2_event(&mut self, registry: &mut PoolArenaRegistry, event: &PoolEvent) -> (result:
        Result<(), EventProcessorError>)
        requires
            old(registry).wf(),
            event.protocol@ == "uniswap_v2"@,
        ensures
            final(registry).wf(),
            handled(old(registry), final(registry), *event, v2_route(*event), result),
            final(self).stats == counted(old(self).stats, v2_route(*event), result is Ok),
    {
        let event_type = event.event_type.as_str();
        if str_equals(event_type, "Swap") {
            self.process_v2_swap(registry, event)
        } else if str_equals(event_type, "Mint") {
            self.process_v2_mint(registry, event)
        } else if str_equals(event_type, "Burn") {
            self.process_v2_burn(registry, event)
        } else {
            let mut name = String::from_str("V2 ");
            name.append(event_type);
            Err(EventProcessorError::UnsupportedEventType(name))
        }
    }

    /// Applies a V3 swap: the pool's price, current tick and active liquidity
    /// become those of the event.
    pub fn process_v3_swap(&mut self, registry: &mut PoolArenaRegistry, event: &PoolEvent) -> (result:
        Result<(), EventProcessorError>)
        requires
            old(registry).wf(),
        ensures
            final(registry).wf(),
            swap_applied(old(registry), final(registry), Family::V3, *event, result),
            final(self).stats == counted(old(self).stats, Route::V3Swap, result is Ok),
    {
        let result = apply_swap(registry, Family::V3, event);
        if result.is_ok() {
            self.stats.v3_swaps_processed = bump(self.stats.v3_swaps_processed);
        }
        result
    }

    /// Applies a V3 mint: the event's liquidity delta is added over the
    /// event's range of ticks.
    pub fn process_v3_mint(&mut self, registry: &mut PoolArenaRegistry, event: &PoolEvent) -> (result:
        Result<(), EventProcessorError>)
        requires
            old(registry).wf(),
        ensures
            final(registry).wf(),
            range_change_applied(old(registry), final(registry), Family::V3, *event, false, result),
            final(self).stats == counted(old(self).stats, Route::V3Mint, result is Ok),
    {
        let result = apply_range_change(registry, Family::V3, event, false);
        if result.is_ok() {
            self.stats.v3_mints_processed = bump(self.stats.v3_mints_processed);
        }
        result
    }

    /// Applies a V3 burn: the negative of the event's liquidity delta is added
    /// over the event's range of ticks.
    pub fn process_v3_burn(&mut self, registry: &mut PoolArenaRegistry, event: &PoolEvent) -> (result:
        Result<(), EventProcessorError>)
        requires
            old(registry).wf(),
        ensures
            final(registry).wf(),
            range_change_applied(old(registry), final(registry), Family::V3, *event, true, result),
            final(self).stats == counted(old(self).stats, Route::V3Burn, result is Ok),
    {
        let result = apply_range_change(registry, Family::V3, event, true);
        if result.is_ok() {
            self.stats.v3_burns_processed = bump(self.stats.v3_burns_processed);
        }
        result
    }

    /// Routes an event of the second protocol by its type.
    fn process_v3_event(&mut self, registry: &mut PoolArenaRegistry, event: &PoolEvent) -> (result:
        Result<(), EventProcessorError>)
        requires
            old(registry).wf(),
            event.protocol@ == "uniswap_v3"@,
        ensures
            final(registry).wf(),
            handled(old(registry), final(registry), *event, v3_route(*event), result),
            final(self).stats == counted(old(self).stats, v3_route(*event), result is Ok),
    {
        proof {
            lemma_protocol_names_differ();
        }
        let event_type = event.event_type.as_str();
        if str_equals(event_type, "Swap") {
            self.process_v3_swap(registry, event)
        } else if str_equals(event_type, "Mint") {
            self.process_v3_mint(registry, event)
        } else if str_equals(event_type, "Burn") {
            self.process_v3_burn(registry, event)
        } else {
            let mut name = String::from_str("V3 ");
            name.append(event_type);
            Err(EventProcessorError::UnsupportedEventType(name))
        }
    }

    /// Applies a V4 swap: as a V3 swap, for the pool that the event's pool id
    /// names.
    pub fn process_v4_swap(&mut self, registry: &mut PoolArenaRegistry, event: &PoolEvent) -> (result:
        Result<(), EventProcessorError>)
        requires
            old(registry).wf(),
        ensures
            final(registry).wf(),
            swap_applied(old(registry), final(registry), Family::V4, *event, result),
            final(self).stats == counted(old(self).stats, Route::V4Swap, result is Ok),
    {
        let result = apply_swap(registry, Family::V4, event);
        if result.is_ok() {
            self.stats.v4_swaps_processed = bump(self.stats.v4_swaps_processed);
        }
        result
    }

    /// Applies a V4 change of liquidity: the event's liquidity delta, positive
    /// to add and negative to remove, is added over the event's range of ticks.
    pub fn process_v4_modify_liquidity(
        &mut self,
        registry: &mut PoolArenaRegistry,
        event: &PoolEvent,
    ) -> (result: Result<(), EventProcessorError>)
        requires
            old(registry).wf(),
        ensures
            final(registry).wf(),
            range_change_applied(old(registry), final(registry), Family::V4, *event, false, result),
            final(self).stats == counted(old(self).stats, Route::V4ModifyLiquidity, result is Ok),
    {
        let result = apply_range_change(registry, Family::V4, event, false);
        if result.is_ok() {
            self.stats.v4_modify_liquidity_processed = bump(
                self.stats.v4_modify_liquidity_processed,
            );
        }
        result
    }

    /// Routes an event of the third protocol by its type.
    fn process_v4_event(&mut self, registry: &mut PoolArenaRegistry, event: &PoolEvent) -> (result:
        Result<(), EventProcessorError>)
        requires
            old(registry).wf(),
            event.protocol@ == "uniswap_v4"@,
        ensures
            final(registry).wf(),
            handled(old(registry), final(registry), *event, v4_route(*event), result),
            final(self).stats == counted(old(self).stats, v4_route(*event), result is Ok),
    {
        proof {
            lemma_protocol_names_differ();
        }
        let event_type = event.event_type.as_str();
        if str_equals(event_type, "Swap") {
            self.process_v4_swap(registry, event)
        } else if str_equals(event_type, "ModifyLiquidity") {
            self.process_v4_modify_liquidity(registry, event)
        } else {
            let mut name = String::from_str("V4 ");
            name.append(event_type);
            Err(EventProcessorError::UnsupportedEventType(name))
        }
    }

    /// Processes one event. A revert is counted and nothing else is done with
    /// it; any other event goes to the handler for its protocol and type. An
    /// event that fails is counted as an error.
    pub fn process_event(&mut self, registry: &mut PoolArenaRegistry, event: &PoolEvent) -> (result:
        Result<(), EventProcessorError>)
        requires
            old(registry).wf(),
        ensures
            final(registry).wf(),
            processed(
                old(self).stats,
                old(registry),
                *event,
                final(self).stats,
                final(registry),
                result,
            ),
    {
        if event.is_revert {
            self.stats.reverts_processed = bump(self.stats.reverts_processed);
            return Ok(());
        }
        let protocol = event.protocol.as_str();
        let result = if str_equals(protocol, "uniswap_v2") {
            self.process_v2_event(registry, event)
        } else if str_equals(protocol, "uniswap_v3") {
            self.process_v3_event(registry, event)
        } else if str_equals(protocol, "uniswap_v4") {
            self.process_v4_event(registry, event)
        } else {
            Err(EventProcessorError::UnsupportedProtocol(String::from_str(protocol)))
        };
        if result.is_err() {
            self.stats.errors = bump(self.stats.errors);
        }
        result
    }

    /// Processes the events in order, going on after one that fails, and
    /// returns the errors in the order in which they came.
    pub fn process_batch(&mut self, registry: &mut PoolArenaRegistry, events: &[PoolEvent]) -> (errors:
        Vec<EventProcessorError>)
        requires
            old(registry).wf(),
        ensures
            final(registry).wf(),
            batch_processed(
                old(self).stats,
                *old(registry),
                events@,
                final(self).stats,
                *final(registry),
                errors@,
            ),
    {
        let mut errors: Vec<EventProcessorError> = Vec::new();
        let mut i: usize = 0;
        assert(events@.subrange(0, 0) =~= Seq::<PoolEvent>::empty());
        while i < events.len()
            invariant
                i <= events@.len(),
                registry.wf(),
                batch_processed(
                    old(self).stats,
                    *old(registry),
                    events@.subrange(0, i as int),
                    self.stats,
                    *registry,
                    errors@,
                ),
            decreases events@.len() - i,
        {
            let ghost stats_between = self.stats;
            let ghost between = *registry;
            let ghost earlier = errors@;
            let result = self.process_event(registry, &events[i]);
            proof {
                let done = events@.subrange(0, i + 1);
                assert(done.drop_last() =~= events@.subrange(0, i as int));
                assert(done.last() == events@[i as int]);
                assert(processed(
                    stats_between,
                    &between,
                    done.last(),
                    self.stats,
                    &*registry,
                    result,
                ));
            }
            match result {
                Ok(_) => {},
                Err(error) => {
                    errors.push(error);
                },
            }
            proof {
                assert(errors@ == collected(earlier, result));
            }
            i += 1;
        }
        assert(events@.subrange(0, i as int) =~= events@);
        errors
    }
}

/// The three protocol names are different names.
pub proof fn lemma_protocol_names_differ()
    ensures
        "uniswap_v2"@ != "uniswap_v3"@,
        "uniswap_v2"@ != "uniswap_v4"@,
        "uniswap_v3"@ != "uniswap_v4"@,
{
    reveal_strlit("uniswap_v2");
    reveal_strlit("uniswap_v3");
    reveal_strlit("uniswap_v4");
    assert("uniswap_v2"@[9] == '2');
    assert("uniswap_v3"@[9] == '3');
    assert("uniswap_v4"@[9] == '4');
}

/// A mint of a pair that is applied and then a burn of the same amounts at
/// the same pair: the burn is applied too, and the registry holds every pair
/// with the reserves it had before the mint, and every other pool as it was.
pub proof fn lemma_mint_then_burn_restores_reserves(
    before: &PoolArenaRegistry,
    minted: &PoolArenaRegistry,
    burned: &PoolArenaRegistry,
    mint: PoolEvent,
    burn: PoolEvent,
    mint_result: Result<(), EventProcessorError>,
    burn_result: Result<(), EventProcessorError>,
)
    requires
        before.wf(),
        minted.wf(),
        burn.pool_address == mint.pool_address,
        burn.amount0@ == mint.amount0@,
        burn.amount1@ == mint.amount1@,
        pair_change_applied(before, minted, mint, false, mint_result),
        mint_result is Ok,
        pair_change_applied(minted, burned, burn, true, burn_result),
    ensures
        burn_result is Ok,
        burned.same_concentrated(before),
        burned.v2_pools() == before.v2_pools(),
{
    let address = mint.pool_address;
    let index = before.locate_pair(address).unwrap();
    assert(before.pair_stands_at(address, index));
    assert(minted.pair_stands_at(address, index));
    let again = minted.locate_pair(address).unwrap();
    assert(minted.pair_stands_at(address, again));
    assert(minted.v2_pools()[again].address == minted.v2_pools()[index].address);
    assert(again == index);
    lemma_limbs_value_bounds(before.v2_pools()[index].reserve0.limbs);
    lemma_limbs_value_bounds(before.v2_pools()[index].reserve1.limbs);
    assert forall|i: int| 0 <= i < before.v2_pools().len() implies burned.v2_pools()[i]
        == before.v2_pools()[i] by {
        if i != index {
            assert(burned.v2_pools()[i] == minted.v2_pools()[i]);
            assert(minted.v2_pools()[i] == before.v2_pools()[i]);
        } else {
            lemma_limbs_value_injective(
                burned.v2_pools()[i].reserve0.limbs,
                before.v2_pools()[i].reserve0.limbs,
            );
            lemma_limbs_value_injective(
                burned.v2_pools()[i].reserve1.limbs,
                before.v2_pools()[i].reserve1.limbs,
            );
        }
    }
    assert(burned.v2_pools() =~= before.v2_pools());
}

/// A mint over a range of ticks that is applied and then a burn of the same
/// liquidity over the same range at the same pool, applied too: the pool has
/// at every tick the net liquidity, and as a whole the active liquidity, that
/// it had before the mint, and no other pool has changed.
pub proof fn lemma_mint_then_burn_restores_liquidity(
    before: &PoolArenaRegistry,
    minted: &PoolArenaRegistry,
    burned: &PoolArenaRegistry,
    mint: PoolEvent,
    burn: PoolEvent,
    mint_result: Result<(), EventProcessorError>,
    burn_result: Result<(), EventProcessorError>,
)
    requires
        before.wf(),
        burn.pool_address == mint.pool_address,
        burn.tick_lower == mint.tick_lower,
        burn.tick_upper == mint.tick_upper,
        burn.liquidity_delta == mint.liquidity_delta,
        range_change_applied(before, minted, Family::V3, mint, false, mint_result),
        mint_result is Ok,
        range_change_applied(minted, burned, Family::V3, burn, true, burn_result),
        burn_result is Ok,
    ensures
        before.locate(Family::V3, PoolIdentifier::Address(mint.pool_address)) matches Some(
            location,
        ) && {
            let was = before.pool_at(Family::V3, location);
            let is = burned.pool_at(Family::V3, location);
            &&& burned.holds(Family::V3, location)
            &&& is.identifier == was.identifier
            &&& is.liquidity == was.liquidity
            &&& is.current_tick == was.current_tick
            &&& is.sqrt_price_x96 == was.sqrt_price_x96
            &&& forall|tick: int| #[trigger]
                crate::pools::net_liquidity(is.ticks@, tick) == crate::pools::net_liquidity(
                    was.ticks@,
                    tick,
                )
            &&& forall|family: Family, other: PoolLocation|
                before.holds(family, other) && !(family == Family::V3 && other == location)
                    ==> #[trigger] burned.pool_at(family, other) == before.pool_at(family, other)
        },
        burned.v2_pools() == before.v2_pools(),
{
    let id = PoolIdentifier::Address(mint.pool_address);
    let location = before.locate(Family::V3, id).unwrap();
    assert(before.stands_at(Family::V3, id, location));
    let was = before.pool_at(Family::V3, location);
    let then = minted.pool_at(Family::V3, location);
    lemma_replace_keeps_order(before, minted, Family::V3, location, then);
    assert(minted.locate(Family::V3, id) == Some(location));
    let is = burned.pool_at(Family::V3, location);
    let lower = mint.tick_lower.unwrap() as int;
    let upper = mint.tick_upper.unwrap() as int;
    let delta = mint.liquidity_delta.unwrap() as int;
    crate::tick_math::lemma_add_then_remove_restores(was, then, is, lower, upper, delta);
    assert forall|family: Family, other: PoolLocation|
        before.holds(family, other) && !(family == Family::V3 && other == location)
            implies #[trigger] burned.pool_at(family, other) == before.pool_at(family, other) by {
        assert(minted.pools(family, other.tier) == if family == Family::V3 && other.tier
            == location.tier {
            before.pools(family, other.tier).update(location.index as int, then)
        } else {
            before.pools(family, other.tier)
        });
        assert(burned.pools(family, other.tier) == if family == Family::V3 && other.tier
            == location.tier {
            minted.pools(family, other.tier).update(location.index as int, is)
        } else {
            minted.pools(family, other.tier)
        });
    }
    assert(burned.pools(Family::V3, location.tier) == minted.pools(
        Family::V3,
        location.tier,
    ).update(location.index as int, is));
    assert(minted.pools(Family::V3, location.tier) == before.pools(
        Family::V3,
        location.tier,
    ).update(location.index as int, then));
}

/// No event moves a pool: whatever an event does to the registry, every pool
/// that was held is found where it stood, in the tier it was admitted to.
pub proof fn lemma_event_keeps_locations(
    before: &PoolArenaRegistry,
    after: &PoolArenaRegistry,
    event: PoolEvent,
    route: Route,
    result: Result<(), EventProcessorError>,
)
    requires
        before.wf(),
        after.wf(),
        handled(before, after, event, route, result),
    ensures
        forall|f: Family, id: PoolIdentifier|
            (#[trigger] before.locate(f, id)) is Some ==> after.locate(f, id) == before.locate(
                f,
                id,
            ),
        forall|address: [u8; 20]|
            (#[trigger] before.locate_pair(address)) is Some ==> after.locate_pair(address)
                == before.locate_pair(address),
{
    assert(forall|f: Family, l: PoolLocation| #[trigger]
        before.holds(f, l) ==> after.holds(f, l) && after.pool_at(f, l).identifier
            == before.pool_at(f, l).identifier) by {
        assert forall|f: Family, l: PoolLocation| #[trigger] before.holds(f, l) implies after.holds(
            f,
            l,
        ) && after.pool_at(f, l).identifier == before.pool_at(f, l).identifier by {
            if *after != *before {
                let family = match route {
                    Route::V4Swap => Family::V4,
                    Route::V4ModifyLiquidity => Family::V4,
                    _ => Family::V3,
                };
                match route {
                    Route::V2Swap | Route::V2Mint | Route::V2Burn => {
                        assert(after.pools(f, l.tier) == before.pools(f, l.tier));
                    },
                    Route::V3Swap | Route::V4Swap | Route::V3Mint | Route::V3Burn
                    | Route::V4ModifyLiquidity => {
                        let location = before.locate(family, named_pool(family, event)).unwrap();
                        assert(before.stands_at(family, named_pool(family, event), location));
                        assert(after.pools(f, l.tier) == if f == family && l.tier == location.tier {
                            before.pools(f, l.tier).update(
                                location.index as int,
                                after.pool_at(family, location),
                            )
                        } else {
                            before.pools(f, l.tier)
                        });
                    },
                    _ => {},
                }
            }
        }
    }
    assert(before.v2_pools().len() <= after.v2_pools().len() && forall|i: int|
        0 <= i < before.v2_pools().len() ==> (#[trigger] after.v2_pools()[i]).address
            == before.v2_pools()[i].address) by {
        if *after != *before {
            match route {
                Route::V2Swap | Route::V2Mint | Route::V2Burn => {
                    let index = before.locate_pair(event.pool_address).unwrap();
                    assert(before.pair_stands_at(event.pool_address, index));
                    assert forall|i: int| 0 <= i < before.v2_pools().len() implies (
                    #[trigger] after.v2_pools()[i]).address == before.v2_pools()[i].address by {
                        if i != index {
                            assert(after.v2_pools()[i] == before.v2_pools()[i]);
                        }
                    }
                },
                _ => {},
            }
        }
    }
    lemma_kept_pools_keep_locations(before, after);
    lemma_kept_pairs_keep_places(before, after);
}

/// No batch moves a pool: after a batch, every pool that was held before it
/// is found where it stood.
pub proof fn lemma_batch_keeps_locations(
    stats_before: EventProcessorStats,
    before: PoolArenaRegistry,
    events: Seq<PoolEvent>,
    stats_now: EventProcessorStats,
    after: PoolArenaRegistry,
    errors: Seq<EventProcessorError>,
)
    requires
        before.wf(),
        after.wf(),
        batch_processed(stats_before, before, events, stats_now, after, errors),
    ensures
        forall|f: Family, id: PoolIdentifier|
            (#[trigger] before.locate(f, id)) is Some ==> after.locate(f, id) == before.locate(
                f,
                id,
            ),
        forall|address: [u8; 20]|
            (#[trigger] before.locate_pair(address)) is Some ==> after.locate_pair(address)
                == before.locate_pair(address),
    decreases events.len(),
{
    if events.len() > 0 {
        let (stats_between, between, earlier, result) = choose|
            stats_between: EventProcessorStats,
            between: PoolArenaRegistry,
            earlier: Seq<EventProcessorError>,
            result: Result<(), EventProcessorError>,
        |
            #![trigger processed(stats_between, &between, events.last(), stats_now, &after, result), collected(earlier, result)]
            batch_processed(
                stats_before,
                before,
                events.drop_last(),
                stats_between,
                between,
                earlier,
            ) && between.wf() && processed(
                stats_between,
                &between,
                events.last(),
                stats_now,
                &after,
                result,
            ) && errors == collected(earlier, result);
        lemma_batch_keeps_locations(
            stats_before,
            before,
            events.drop_last(),
            stats_between,
            between,
            earlier,
        );
        lemma_event_keeps_locations(&between, &after, events.last(), route_of(events.last()), result);
        assert forall|f: Family, id: PoolIdentifier|
            (#[trigger] before.locate(f, id)) is Some implies after.locate(f, id)
            == before.locate(f, id) by {
            assert(between.locate(f, id) == before.locate(f, id));
        }
        assert forall|address: [u8; 20]|
            (#[trigger] before.locate_pair(address)) is Some implies after.locate_pair(address)
            == before.locate_pair(address) by {
            assert(between.locate_pair(address) == before.locate_pair(address));
        }
    }
}

} // verus!
