//! From a scraped snapshot to a pool in the registry.

use crate::messages::PoolIdentifier;
use crate::pools::{
    tier_admits,
    tier_holds,
    ConcentratedPool,
    TickBitmapWord,
    TickInfo,
    Tier,
    V2Pool,
};
use crate::registry::{
    identifies,
    lemma_found_once,
    lemma_kept_pairs_keep_places,
    lemma_kept_pools_keep_locations,
    Family,
    PoolArenaRegistry,
    PoolLocation,
    RegistryError,
};
use crate::startup_coordinator::StartupError;
use crate::text::str_equals;
use crate::wide::{U160, U256};
use vstd::prelude::*;
use vstd::string::StringExecFns;

verus! {

/// What the scraper read of one pool. A constant-product pair has reserves and
/// no ticks; a concentrated-liquidity pool has a price, a current tick, an
/// active liquidity, ticks and bitmap words.
#[derive(Debug, PartialEq, Eq)]
pub struct RawPoolState {
    pub token0: [u8; 20],
    pub token1: [u8; 20],
    pub reserve0: U256,
    pub reserve1: U256,
    pub sqrt_price_x96: U160,
    pub current_tick: i32,
    pub liquidity: u128,
    pub ticks: Vec<TickInfo>,
    pub tick_bitmaps: Vec<TickBitmapWord>,
}

/// A pool made from a snapshot, by protocol and tier.
#[derive(Debug, PartialEq, Eq)]
pub enum PoolCreationResult {
    V2(V2Pool),
    V3Low(ConcentratedPool),
    V3Active(ConcentratedPool),
    V3Popular(ConcentratedPool),
    V3Major(ConcentratedPool),
    V4Low(ConcentratedPool),
    V4Active(ConcentratedPool),
    V4Popular(ConcentratedPool),
    V4Major(ConcentratedPool),
}

/// The concentrated-liquidity pool that a snapshot describes.
pub open spec fn concentrated_from(identifier: PoolIdentifier, raw: RawPoolState) -> ConcentratedPool {
    ConcentratedPool {
        identifier,
        sqrt_price_x96: raw.sqrt_price_x96,
        current_tick: raw.current_tick,
        liquidity: raw.liquidity,
        ticks: raw.ticks,
        tick_bitmaps: raw.tick_bitmaps,
    }
}

/// A concentrated-liquidity pool as the result for its family and tier.
pub open spec fn tiered(family: Family, tier: Tier, pool: ConcentratedPool) -> PoolCreationResult {
    match (family, tier) {
        (Family::V3, Tier::Low) => PoolCreationResult::V3Low(pool),
        (Family::V3, Tier::Active) => PoolCreationResult::V3Active(pool),
        (Family::V3, Tier::Popular) => PoolCreationResult::V3Popular(pool),
        (Family::V3, Tier::Major) => PoolCreationResult::V3Major(pool),
        (Family::V4, Tier::Low) => PoolCreationResult::V4Low(pool),
        (Family::V4, Tier::Active) => PoolCreationResult::V4Active(pool),
        (Family::V4, Tier::Popular) => PoolCreationResult::V4Popular(pool),
        (Family::V4, Tier::Major) => PoolCreationResult::V4Major(pool),
    }
}

/// The pool that `create_pool` makes, where it makes one: a pair for the first
/// protocol and an address; a pool of the given tier for the second protocol
/// and an address, or the third and a pool id, if the tier holds its ticks and
/// bitmap words.
pub open spec fn created(
    identifier: PoolIdentifier,
    protocol: Seq<char>,
    raw: RawPoolState,
    tier: Tier,
) -> Option<PoolCreationResult> {
    if protocol == "uniswap_v2"@ {
        match identifier {
            PoolIdentifier::Address(address) => Some(
                PoolCreationResult::V2(
                    V2Pool {
                        address,
                        reserve0: raw.reserve0,
                        reserve1: raw.reserve1,
                        token0: raw.token0,
                        token1: raw.token1,
                    },
                ),
            ),
            PoolIdentifier::PoolId(_) => None,
        }
    } else if protocol == "uniswap_v3"@ || protocol == "uniswap_v4"@ {
        let family = if protocol == "uniswap_v3"@ {
            Family::V3
        } else {
            Family::V4
        };
        if identifies(family, identifier) && tier_holds(
            tier,
            raw.ticks@.len(),
            raw.tick_bitmaps@.len(),
        ) {
            Some(tiered(family, tier, concentrated_from(identifier, raw)))
        } else {
            None
        }
    } else {
        None
    }
}

/// The `PoolFactory` error that says `message`.
fn factory_error(message: &str) -> (error: StartupError)
    ensures
        error matches StartupError::PoolFactory(text) && text@ == message@,
{
    StartupError::PoolFactory(String::from_str(message))
}

/// Makes the pool that a snapshot describes, for the tier given. Fails with a
/// `PoolFactory` error where the protocol is unknown, the identifier is not of
/// the protocol's kind, or the tier does not hold the snapshot.
pub fn create_pool(identifier: PoolIdentifier, protocol: &str, raw: RawPoolState, tier: Tier) -> (result:
    Result<PoolCreationResult, StartupError>)
    ensures
        match created(identifier, protocol@, raw, tier) {
            Some(pool) => result == Ok::<PoolCreationResult, StartupError>(pool),
            None => result matches Err(StartupError::PoolFactory(_)),
        },
{
    proof {
        crate::event_processor::lemma_protocol_names_differ();
    }
    if str_equals(protocol, "uniswap_v2") {
        return match identifier {
            PoolIdentifier::Address(address) => Ok(
                PoolCreationResult::V2(
                    V2Pool {
                        address,
                        reserve0: raw.reserve0,
                        reserve1: raw.reserve1,
                        token0: raw.token0,
                        token1: raw.token1,
                    },
                ),
            ),
            PoolIdentifier::PoolId(_) => Err(
                factory_error("A pair is known by an address, not by a pool id"),
            ),
        };
    }
    let family = if str_equals(protocol, "uniswap_v3") {
        Family::V3
    } else if str_equals(protocol, "uniswap_v4") {
        Family::V4
    } else {
        return Err(factory_error("Unknown protocol"));
    };
    let kind_fits = match (family, &identifier) {
        (Family::V3, PoolIdentifier::Address(_)) => true,
        (Family::V4, PoolIdentifier::PoolId(_)) => true,
        _ => false,
    };
    if !kind_fits {
        return Err(factory_error("The identifier is not of the protocol's kind"));
    }
    if !tier_admits(tier, raw.ticks.len(), raw.tick_bitmaps.len()) {
        return Err(factory_error("The tier does not hold the pool's ticks"));
    }
    let pool = ConcentratedPool {
        identifier,
        sqrt_price_x96: raw.sqrt_price_x96,
        current_tick: raw.current_tick,
        liquidity: raw.liquidity,
        ticks: raw.ticks,
        tick_bitmaps: raw.tick_bitmaps,
    };
    Ok(
        match (family, tier) {
            (Family::V3, Tier::Low) => PoolCreationResult::V3Low(pool),
            (Family::V3, Tier::Active) => PoolCreationResult::V3Active(pool),
            (Family::V3, Tier::Popular) => PoolCreationResult::V3Popular(pool),
            (Family::V3, Tier::Major) => PoolCreationResult::V3Major(pool),
            (Family::V4, Tier::Low) => PoolCreationResult::V4Low(pool),
            (Family::V4, Tier::Active) => PoolCreationResult::V4Active(pool),
            (Family::V4, Tier::Popular) => PoolCreationResult::V4Popular(pool),
            (Family::V4, Tier::Major) => PoolCreationResult::V4Major(pool),
        },
    )
}

/// What the registry's refusal says, in words.
pub fn describe_refusal(error: &RegistryError) -> (message: String)
    ensures
        message@ == match *error {
            RegistryError::DuplicatePool(_) => "Pool is held already"@,
            RegistryError::TierCapacityExceeded(_) => "Pool exceeds the capacity of its tier"@,
            RegistryError::WrongIdentifierKind(_) => "Identifier is not of the family's kind"@,
        },
{
    match error {
        RegistryError::DuplicatePool(_) => String::from_str("Pool is held already"),
        RegistryError::TierCapacityExceeded(_) => String::from_str(
            "Pool exceeds the capacity of its tier",
        ),
        RegistryError::WrongIdentifierKind(_) => String::from_str(
            "Identifier is not of the family's kind",
        ),
    }
}

/// Whether the registry takes a concentrated-liquidity pool into the arena of
/// `family` for `tier`: the identifier is of the family's kind and not held
/// yet, and the pool fits the tier.
pub open spec fn takes(before: &PoolArenaRegistry, family: Family, tier: Tier, pool: ConcentratedPool) -> bool {
    identifies(family, pool.identifier) && before.locate(family, pool.identifier) is None
        && tier_holds(tier, pool.ticks@.len(), pool.tick_bitmaps@.len())
}

/// Whether `after` is `before` with the pool at the end of the arena of
/// `family` for `tier`, where it is found by its identifier.
pub open spec fn stands_last(
    before: &PoolArenaRegistry,
    after: &PoolArenaRegistry,
    family: Family,
    tier: Tier,
    pool: ConcentratedPool,
) -> bool {
    after.extends(before, family, tier, pool) && after.locate(family, pool.identifier) == Some(
        PoolLocation { tier, index: before.pools(family, tier).len() as usize },
    )
}

/// Whether the registry takes the pool: a pair whose address is not held yet;
/// a concentrated-liquidity pool that the arena of its family and tier takes.
pub open spec fn accepts(before: &PoolArenaRegistry, pool: PoolCreationResult) -> bool {
    match pool {
        PoolCreationResult::V2(pair) => before.locate_pair(pair.address) is None,
        PoolCreationResult::V3Low(p) => takes(before, Family::V3, Tier::Low, p),
        PoolCreationResult::V3Active(p) => takes(before, Family::V3, Tier::Active, p),
        PoolCreationResult::V3Popular(p) => takes(before, Family::V3, Tier::Popular, p),
        PoolCreationResult::V3Major(p) => takes(before, Family::V3, Tier::Major, p),
        PoolCreationResult::V4Low(p) => takes(before, Family::V4, Tier::Low, p),
        PoolCreationResult::V4Active(p) => takes(before, Family::V4, Tier::Active, p),
        PoolCreationResult::V4Popular(p) => takes(before, Family::V4, Tier::Popular, p),
        PoolCreationResult::V4Major(p) => takes(before, Family::V4, Tier::Major, p),
    }
}

/// Whether `after` is `before` with the pool added: a pair at the end of the
/// arena of pairs, a concentrated-liquidity pool at the end of the arena of
/// its family and tier, each found there by its identifier, and nothing else
/// changed.
pub open spec fn placed(
    before: &PoolArenaRegistry,
    after: &PoolArenaRegistry,
    pool: PoolCreationResult,
) -> bool {
    match pool {
        PoolCreationResult::V2(pair) => after.v2_pools() == before.v2_pools().push(pair)
            && after.same_concentrated(before) && after.locate_pair(pair.address) == Some(
            before.v2_pools().len() as int,
        ),
        PoolCreationResult::V3Low(p) => stands_last(before, after, Family::V3, Tier::Low, p),
        PoolCreationResult::V3Active(p) => stands_last(before, after, Family::V3, Tier::Active, p),
        PoolCreationResult::V3Popular(p) => stands_last(
            before,
            after,
            Family::V3,
            Tier::Popular,
            p,
        ),
        PoolCreationResult::V3Major(p) => stands_last(before, after, Family::V3, Tier::Major, p),
        PoolCreationResult::V4Low(p) => stands_last(before, after, Family::V4, Tier::Low, p),
        PoolCreationResult::V4Active(p) => stands_last(before, after, Family::V4, Tier::Active, p),
        PoolCreationResult::V4Popular(p) => stands_last(
            before,
            after,
            Family::V4,
            Tier::Popular,
            p,
        ),
        PoolCreationResult::V4Major(p) => stands_last(before, after, Family::V4, Tier::Major, p),
    }
}

/// What the registration of a pool comes to: where the registry takes the
/// pool, it is added; where it does not, the registry is unchanged and an
/// `ArenaRegistry` error says so.
pub open spec fn registered(
    before: &PoolArenaRegistry,
    after: &PoolArenaRegistry,
    pool: PoolCreationResult,
    result: Result<(), StartupError>,
) -> bool {
    if accepts(before, pool) {
        result is Ok && placed(before, after, pool)
    } else {
        (result matches Err(StartupError::ArenaRegistry(_))) && *after == *before
    }
}

/// Whether loading the pool known by `identifier` from what was scraped
/// succeeds: the scrape succeeded, a pool can be made of it for the tier that
/// its ticks and bitmap words call for, and the registry takes that pool.
pub open spec fn loads(
    before: &PoolArenaRegistry,
    identifier: PoolIdentifier,
    protocol: Seq<char>,
    scraped: Result<RawPoolState, String>,
) -> bool {
    scraped matches Ok(raw) && (created(
        identifier,
        protocol,
        raw,
        crate::pools::tier_for(raw.ticks@.len(), raw.tick_bitmaps@.len()),
    ) matches Some(pool) && accepts(before, pool))
}

/// What loading a pool does to the registry: where it succeeds, the pool made
/// of the snapshot is added; where it does not, nothing changes.
pub open spec fn load_applied(
    before: &PoolArenaRegistry,
    after: &PoolArenaRegistry,
    identifier: PoolIdentifier,
    protocol: Seq<char>,
    scraped: Result<RawPoolState, String>,
) -> bool {
    if loads(before, identifier, protocol, scraped) {
        let raw = scraped->Ok_0;
        placed(
            before,
            after,
            created(
                identifier,
                protocol,
                raw,
                crate::pools::tier_for(raw.ticks@.len(), raw.tick_bitmaps@.len()),
            ).unwrap(),
        )
    } else {
        *after == *before
    }
}

/// What loading a pool reports: the scraper's failure with its text, else a
/// `PoolFactory` error where no pool can be made of the snapshot, else an
/// `ArenaRegistry` error where the registry does not take the pool, else
/// success.
pub open spec fn load_reported(
    before: &PoolArenaRegistry,
    identifier: PoolIdentifier,
    protocol: Seq<char>,
    scraped: Result<RawPoolState, String>,
    result: Result<(), StartupError>,
) -> bool {
    match scraped {
        Err(cause) => result matches Err(StartupError::Scraper(text)) && text@ == cause@,
        Ok(raw) => match created(
            identifier,
            protocol,
            raw,
            crate::pools::tier_for(raw.ticks@.len(), raw.tick_bitmaps@.len()),
        ) {
            None => result matches Err(StartupError::PoolFactory(_)),
            Some(pool) => if accepts(before, pool) {
                result is Ok
            } else {
                result matches Err(StartupError::ArenaRegistry(_))
            },
        },
    }
}

fn registry_outcome(outcome: Result<PoolLocation, RegistryError>) -> (result: Result<
    (),
    StartupError,
>)
    ensures
        outcome is Ok ==> result is Ok,
        outcome is Err ==> (result matches Err(StartupError::ArenaRegistry(_))),
{
    match outcome {
        Ok(_) => Ok(()),
        Err(error) => Err(StartupError::ArenaRegistry(describe_refusal(&error))),
    }
}

/// Registers a pool in the arena for its protocol and tier.
pub fn add_pool_to_registry(registry: &mut PoolArenaRegistry, pool_result: PoolCreationResult) -> (result:
    Result<(), StartupError>)
    requires
        old(registry).wf(),
    ensures
        final(registry).wf(),
        registered(old(registry), final(registry), pool_result, result),
{
    match pool_result {
        PoolCreationResult::V2(pool) => registry_outcome(
            registry.add_uniswap_v2_pool(
                pool.address,
                pool.reserve0,
                pool.reserve1,
                pool.token0,
                pool.token1,
            ),
        ),
        PoolCreationResult::V3Low(pool) => registry_outcome(registry.add_uniswap_v3_low_pool(pool)),
        PoolCreationResult::V3Active(pool) => registry_outcome(
            registry.add_uniswap_v3_active_pool(pool),
        ),
        PoolCreationResult::V3Popular(pool) => registry_outcome(
            registry.add_uniswap_v3_popular_pool(pool),
        ),
        PoolCreationResult::V3Major(pool) => registry_outcome(
            registry.add_uniswap_v3_major_pool(pool),
        ),
        PoolCreationResult::V4Low(pool) => registry_outcome(registry.add_uniswap_v4_low_pool(pool)),
        PoolCreationResult::V4Active(pool) => registry_outcome(
            registry.add_uniswap_v4_active_pool(pool),
        ),
        PoolCreationResult::V4Popular(pool) => registry_outcome(
            registry.add_uniswap_v4_popular_pool(pool),
        ),
        PoolCreationResult::V4Major(pool) => registry_outcome(
            registry.add_uniswap_v4_major_pool(pool),
        ),
    }
}

/// The family of a protocol that is not the first.
pub open spec fn family_of(protocol: Seq<char>) -> Family {
    if protocol == "uniswap_v3"@ {
        Family::V3
    } else {
        Family::V4
    }
}

/// A pool that was loaded stands in the registry once, under its identifier:
/// a pair in the arena of pairs, with the reserves that were scraped; a
/// concentrated-liquidity pool in the arena of its family for the tier that
/// its scraped ticks and bitmap words call for, with what was scraped.
pub proof fn lemma_loaded_pool_stands_at_its_tier(
    before: &PoolArenaRegistry,
    after: &PoolArenaRegistry,
    identifier: PoolIdentifier,
    protocol: Seq<char>,
    raw: RawPoolState,
)
    requires
        after.wf(),
        loads(before, identifier, protocol, Ok(raw)),
        load_applied(before, after, identifier, protocol, Ok(raw)),
    ensures
        protocol == "uniswap_v2"@ ==> (identifier matches PoolIdentifier::Address(address) && (
        after.locate_pair(address) matches Some(place) && after.v2_pools()[place] == (V2Pool {
            address,
            reserve0: raw.reserve0,
            reserve1: raw.reserve1,
            token0: raw.token0,
            token1: raw.token1,
        }) && forall|other: int| #[trigger]
            after.pair_stands_at(address, other) ==> other == place)),
        protocol != "uniswap_v2"@ ==> (after.locate(family_of(protocol), identifier) matches Some(
            location,
        ) && location.tier == crate::pools::tier_for(raw.ticks@.len(), raw.tick_bitmaps@.len())
            && after.pool_at(family_of(protocol), location) == concentrated_from(identifier, raw)
            && forall|other: PoolLocation| #[trigger]
            after.stands_at(family_of(protocol), identifier, other) ==> other == location),
{
    lemma_found_once(after);
    let tier = crate::pools::tier_for(raw.ticks@.len(), raw.tick_bitmaps@.len());
    if protocol == "uniswap_v2"@ {
        let address = identifier->Address_0;
        let place = after.locate_pair(address).unwrap();
        assert(after.v2_pools()[place] == before.v2_pools().push(
            V2Pool {
                address,
                reserve0: raw.reserve0,
                reserve1: raw.reserve1,
                token0: raw.token0,
                token1: raw.token1,
            },
        )[place]);
    } else {
        let family = family_of(protocol);
        let pool = concentrated_from(identifier, raw);
        assert(created(identifier, protocol, raw, tier) == Some(tiered(family, tier, pool)));
        assert(stands_last(before, after, family, tier, pool));
        let location = PoolLocation { tier, index: before.pools(family, tier).len() as usize };
        assert(after.pools(family, tier) == before.pools(family, tier).push(pool));
        assert(after.stands_at(family, identifier, location));
    }
}

/// Loading a pool leaves the pools that were held where and as they were.
pub proof fn lemma_load_keeps_pools(
    before: &PoolArenaRegistry,
    after: &PoolArenaRegistry,
    identifier: PoolIdentifier,
    protocol: Seq<char>,
    scraped: Result<RawPoolState, String>,
)
    requires
        before.wf(),
        after.wf(),
        load_applied(before, after, identifier, protocol, scraped),
    ensures
        forall|f: Family, id: PoolIdentifier|
            (#[trigger] before.locate(f, id)) matches Some(location) ==> after.locate(f, id)
                == Some(location) && after.pool_at(f, location) == before.pool_at(f, location),
        forall|address: [u8; 20]|
            (#[trigger] before.locate_pair(address)) matches Some(place) ==> after.locate_pair(
                address,
            ) == Some(place) && after.v2_pools()[place] == before.v2_pools()[place],
{
    assert forall|f: Family, l: PoolLocation| #[trigger] before.holds(f, l) implies after.holds(
        f,
        l,
    ) && after.pool_at(f, l) == before.pool_at(f, l) by {
        if loads(before, identifier, protocol, scraped) {
            let raw = scraped->Ok_0;
            let tier = crate::pools::tier_for(raw.ticks@.len(), raw.tick_bitmaps@.len());
            if protocol == "uniswap_v2"@ {
                assert(after.pools(f, l.tier) == before.pools(f, l.tier));
            } else {
                let family = family_of(protocol);
                let pool = concentrated_from(identifier, raw);
                assert(created(identifier, protocol, raw, tier) == Some(
                    tiered(family, tier, pool),
                ));
                assert(stands_last(before, after, family, tier, pool));
                assert(after.pools(f, l.tier) == if f == family && l.tier == tier {
                    before.pools(f, l.tier).push(pool)
                } else {
                    before.pools(f, l.tier)
                });
            }
        }
    }
    assert forall|i: int| 0 <= i < before.v2_pools().len() implies (
    #[trigger] after.v2_pools()[i]) == before.v2_pools()[i] by {
        if loads(before, identifier, protocol, scraped) {
            let raw = scraped->Ok_0;
            let tier = crate::pools::tier_for(raw.ticks@.len(), raw.tick_bitmaps@.len());
            if protocol != "uniswap_v2"@ {
                let family = family_of(protocol);
                let pool = concentrated_from(identifier, raw);
                assert(created(identifier, protocol, raw, tier) == Some(
                    tiered(family, tier, pool),
                ));
                assert(stands_last(before, after, family, tier, pool));
            }
        }
    }
    assert(before.v2_pools().len() <= after.v2_pools().len()) by {
        if loads(before, identifier, protocol, scraped) {
            let raw = scraped->Ok_0;
            let tier = crate::pools::tier_for(raw.ticks@.len(), raw.tick_bitmaps@.len());
            if protocol != "uniswap_v2"@ {
                let family = family_of(protocol);
                let pool = concentrated_from(identifier, raw);
                assert(created(identifier, protocol, raw, tier) == Some(
                    tiered(family, tier, pool),
                ));
                assert(stands_last(before, after, family, tier, pool));
            }
        }
    }
    lemma_kept_pools_keep_locations(before, after);
    lemma_kept_pairs_keep_places(before, after);
    assert forall|f: Family, id: PoolIdentifier|
        (#[trigger] before.locate(f, id)) is Some implies after.locate(f, id) == before.locate(
        f,
        id,
    ) && after.pool_at(f, before.locate(f, id).unwrap()) == before.pool_at(
        f,
        before.locate(f, id).unwrap(),
    ) by {
        let location = before.locate(f, id).unwrap();
        assert(before.stands_at(f, id, location));
        assert(before.holds(f, location));
    }
    assert forall|address: [u8; 20]|
        (#[trigger] before.locate_pair(address)) is Some implies after.locate_pair(address)
        == before.locate_pair(address) && after.v2_pools()[before.locate_pair(address).unwrap()]
        == before.v2_pools()[before.locate_pair(address).unwrap()] by {
        let place = before.locate_pair(address).unwrap();
        assert(before.pair_stands_at(address, place));
    }
}

} // verus!
