use pool_state_arena::messages::PoolIdentifier;
use pool_state_arena::pool_factory::{
    add_pool_to_registry, create_pool, describe_refusal, PoolCreationResult, RawPoolState,
};
use pool_state_arena::pools::{
    determine_tier, same_identifier, ConcentratedPool, TickBitmapWord, TickInfo, Tier, V2Pool,
};
use pool_state_arena::registry::{Family, PoolArenaRegistry, PoolLocation, RegistryError};
use pool_state_arena::startup_coordinator::StartupError;
use pool_state_arena::wide::{I256, U160, U256};

fn pool(identifier: PoolIdentifier, ticks: usize) -> ConcentratedPool {
    let mut entries = Vec::new();
    for i in 0..ticks {
        entries.push(TickInfo { index: i as i32, liquidity_net: 1 });
    }
    ConcentratedPool {
        identifier,
        sqrt_price_x96: U160::zero(),
        current_tick: 0,
        liquidity: 0,
        ticks: entries,
        tick_bitmaps: Vec::new(),
    }
}

fn raw(ticks: usize, bitmaps: usize) -> RawPoolState {
    let mut entries = Vec::new();
    for i in 0..ticks {
        entries.push(TickInfo { index: i as i32, liquidity_net: 1 });
    }
    let mut words = Vec::new();
    for i in 0..bitmaps {
        words.push(TickBitmapWord { word_position: i as i16, bits: U256::from_u128(1) });
    }
    RawPoolState {
        token0: [1; 20],
        token1: [2; 20],
        reserve0: U256::from_u128(100),
        reserve1: U256::from_u128(200),
        sqrt_price_x96: U160::from_u128(1 << 96),
        current_tick: 5,
        liquidity: 77,
        ticks: entries,
        tick_bitmaps: words,
    }
}

#[test]
fn determine_tier_picks_the_smallest_tier_that_holds() {
    assert_eq!(determine_tier(0, 0), Tier::Low);
    assert_eq!(determine_tier(16, 4), Tier::Low);
    assert_eq!(determine_tier(17, 4), Tier::Active);
    assert_eq!(determine_tier(16, 5), Tier::Active);
    assert_eq!(determine_tier(64, 16), Tier::Active);
    assert_eq!(determine_tier(65, 0), Tier::Popular);
    assert_eq!(determine_tier(0, 17), Tier::Popular);
    assert_eq!(determine_tier(256, 64), Tier::Popular);
    assert_eq!(determine_tier(257, 0), Tier::Major);
    assert_eq!(determine_tier(0, 65), Tier::Major);
    assert_eq!(determine_tier(usize::MAX, usize::MAX), Tier::Major);
}

#[test]
fn same_identifier_compares_kind_and_bytes() {
    let a = PoolIdentifier::Address([1; 20]);
    let mut other = [1u8; 20];
    other[19] = 2;
    assert!(same_identifier(&a, &PoolIdentifier::Address([1; 20])));
    assert!(!same_identifier(&a, &PoolIdentifier::Address(other)));
    assert!(!same_identifier(&a, &PoolIdentifier::PoolId([1; 32])));
    assert!(same_identifier(&PoolIdentifier::PoolId([1; 32]), &PoolIdentifier::PoolId([1; 32])));
}

#[test]
fn new_registry_is_empty() {
    let registry = PoolArenaRegistry::new();
    assert_eq!(registry.v2_pool_count(), 0);
    assert_eq!(registry.pool_count(Family::V3, Tier::Low), 0);
    assert_eq!(registry.pool_count(Family::V4, Tier::Major), 0);
    assert_eq!(registry.get_v2_pool_location([0; 20]), None);
    assert_eq!(registry.get_v3_pool_location([0; 20]), None);
    assert_eq!(registry.get_v4_pool_location([0; 32]), None);
}

#[test]
fn pairs_stand_in_one_arena_in_order_of_admission() {
    let mut registry = PoolArenaRegistry::new();
    let a = registry
        .add_uniswap_v2_pool([1; 20], U256::from_u128(1), U256::from_u128(2), [3; 20], [4; 20])
        .unwrap();
    let b = registry
        .add_uniswap_v2_pool([2; 20], U256::from_u128(5), U256::from_u128(6), [7; 20], [8; 20])
        .unwrap();
    assert_eq!(a, PoolLocation { tier: Tier::Low, index: 0 });
    assert_eq!(b, PoolLocation { tier: Tier::Low, index: 1 });
    assert_eq!(registry.get_v2_pool_location([2; 20]), Some(b));
    assert_eq!(registry.get_v2_pool_location([1; 20]), Some(a));
    assert_eq!(
        *registry.v2_pool(1),
        V2Pool {
            address: [2; 20],
            reserve0: U256::from_u128(5),
            reserve1: U256::from_u128(6),
            token0: [7; 20],
            token1: [8; 20],
        }
    );
    assert_eq!(registry.v2_pool_count(), 2);
    // a pair is no V3 pool
    assert_eq!(registry.get_v3_pool_location([1; 20]), None);
}

#[test]
fn duplicate_pair_is_refused() {
    let mut registry = PoolArenaRegistry::new();
    registry
        .add_uniswap_v2_pool([1; 20], U256::from_u128(1), U256::from_u128(2), [3; 20], [4; 20])
        .unwrap();
    assert_eq!(
        registry.add_uniswap_v2_pool(
            [1; 20],
            U256::from_u128(9),
            U256::from_u128(9),
            [3; 20],
            [4; 20]
        ),
        Err(RegistryError::DuplicatePool(PoolIdentifier::Address([1; 20])))
    );
    assert_eq!(registry.v2_pool_count(), 1);
    assert_eq!(registry.v2_pool(0).reserve0, U256::from_u128(1));
}

#[test]
fn set_v2_reserves_changes_one_pair() {
    let mut registry = PoolArenaRegistry::new();
    registry
        .add_uniswap_v2_pool([1; 20], U256::from_u128(1), U256::from_u128(2), [3; 20], [4; 20])
        .unwrap();
    registry
        .add_uniswap_v2_pool([2; 20], U256::from_u128(5), U256::from_u128(6), [7; 20], [8; 20])
        .unwrap();
    registry.set_v2_reserves(0, U256::from_u128(10), U256::from_u128(20));
    assert_eq!(registry.v2_pool(0).reserve0, U256::from_u128(10));
    assert_eq!(registry.v2_pool(0).reserve1, U256::from_u128(20));
    assert_eq!(registry.v2_pool(0).address, [1; 20]);
    assert_eq!(registry.v2_pool(1).reserve0, U256::from_u128(5));
}

#[test]
fn each_tier_has_its_own_arena() {
    let mut registry = PoolArenaRegistry::new();
    let low = registry.add_uniswap_v3_low_pool(pool(PoolIdentifier::Address([1; 20]), 0)).unwrap();
    let active =
        registry.add_uniswap_v3_active_pool(pool(PoolIdentifier::Address([2; 20]), 20)).unwrap();
    let popular =
        registry.add_uniswap_v3_popular_pool(pool(PoolIdentifier::Address([3; 20]), 100)).unwrap();
    let major =
        registry.add_uniswap_v3_major_pool(pool(PoolIdentifier::Address([4; 20]), 300)).unwrap();
    let second_low =
        registry.add_uniswap_v3_low_pool(pool(PoolIdentifier::Address([5; 20]), 16)).unwrap();
    assert_eq!(low, PoolLocation { tier: Tier::Low, index: 0 });
    assert_eq!(active, PoolLocation { tier: Tier::Active, index: 0 });
    assert_eq!(popular, PoolLocation { tier: Tier::Popular, index: 0 });
    assert_eq!(major, PoolLocation { tier: Tier::Major, index: 0 });
    assert_eq!(second_low, PoolLocation { tier: Tier::Low, index: 1 });
    assert_eq!(registry.get_v3_pool_location([3; 20]), Some(popular));
    assert_eq!(registry.get_v3_pool_location([5; 20]), Some(second_low));
    assert_eq!(registry.pool(Family::V3, major).ticks.len(), 300);
    assert_eq!(registry.pool_count(Family::V3, Tier::Low), 2);
    assert_eq!(registry.pool_count(Family::V4, Tier::Low), 0);
}

#[test]
fn v4_pools_are_known_by_pool_id() {
    let mut registry = PoolArenaRegistry::new();
    let low = registry.add_uniswap_v4_low_pool(pool(PoolIdentifier::PoolId([1; 32]), 0)).unwrap();
    let active =
        registry.add_uniswap_v4_active_pool(pool(PoolIdentifier::PoolId([2; 32]), 0)).unwrap();
    let popular =
        registry.add_uniswap_v4_popular_pool(pool(PoolIdentifier::PoolId([3; 32]), 0)).unwrap();
    let major =
        registry.add_uniswap_v4_major_pool(pool(PoolIdentifier::PoolId([4; 32]), 0)).unwrap();
    assert_eq!(registry.get_v4_pool_location([1; 32]), Some(low));
    assert_eq!(registry.get_v4_pool_location([2; 32]), Some(active));
    assert_eq!(registry.get_v4_pool_location([3; 32]), Some(popular));
    assert_eq!(registry.get_v4_pool_location([4; 32]), Some(major));
    assert_eq!(major, PoolLocation { tier: Tier::Major, index: 0 });
    assert_eq!(registry.find(Family::V4, &PoolIdentifier::PoolId([3; 32])), Some(popular));
    assert_eq!(registry.find(Family::V3, &PoolIdentifier::PoolId([3; 32])), None);
}

#[test]
fn duplicate_identifier_is_refused_across_tiers() {
    let mut registry = PoolArenaRegistry::new();
    registry.add_uniswap_v3_low_pool(pool(PoolIdentifier::Address([1; 20]), 0)).unwrap();
    assert_eq!(
        registry.add_uniswap_v3_major_pool(pool(PoolIdentifier::Address([1; 20]), 0)),
        Err(RegistryError::DuplicatePool(PoolIdentifier::Address([1; 20])))
    );
    assert_eq!(registry.pool_count(Family::V3, Tier::Major), 0);
}

#[test]
fn wrong_kind_of_identifier_is_refused() {
    let mut registry = PoolArenaRegistry::new();
    assert_eq!(
        registry.add_uniswap_v3_low_pool(pool(PoolIdentifier::PoolId([1; 32]), 0)),
        Err(RegistryError::WrongIdentifierKind(PoolIdentifier::PoolId([1; 32])))
    );
    assert_eq!(
        registry.add_uniswap_v4_low_pool(pool(PoolIdentifier::Address([1; 20]), 0)),
        Err(RegistryError::WrongIdentifierKind(PoolIdentifier::Address([1; 20])))
    );
}

#[test]
fn pool_too_large_for_the_tier_is_refused() {
    let mut registry = PoolArenaRegistry::new();
    assert_eq!(
        registry.add_uniswap_v3_low_pool(pool(PoolIdentifier::Address([1; 20]), 17)),
        Err(RegistryError::TierCapacityExceeded(Tier::Low))
    );
    assert_eq!(
        registry.add_uniswap_v3_active_pool(pool(PoolIdentifier::Address([1; 20]), 65)),
        Err(RegistryError::TierCapacityExceeded(Tier::Active))
    );
    assert_eq!(
        registry.add_uniswap_v3_popular_pool(pool(PoolIdentifier::Address([1; 20]), 257)),
        Err(RegistryError::TierCapacityExceeded(Tier::Popular))
    );
    assert!(registry.add_uniswap_v3_major_pool(pool(PoolIdentifier::Address([1; 20]), 257)).is_ok());
}

#[test]
fn pool_mut_changes_the_pool_in_place() {
    let mut registry = PoolArenaRegistry::new();
    let location =
        registry.add_uniswap_v3_low_pool(pool(PoolIdentifier::Address([1; 20]), 0)).unwrap();
    registry.pool_mut(Family::V3, location).liquidity = 42;
    assert_eq!(registry.pool(Family::V3, location).liquidity, 42);
}

#[test]
fn create_pool_makes_a_pair_for_the_first_protocol() {
    let made = create_pool(PoolIdentifier::Address([9; 20]), "uniswap_v2", raw(0, 0), Tier::Low);
    assert_eq!(
        made,
        Ok(PoolCreationResult::V2(V2Pool {
            address: [9; 20],
            reserve0: U256::from_u128(100),
            reserve1: U256::from_u128(200),
            token0: [1; 20],
            token1: [2; 20],
        }))
    );
}

#[test]
fn create_pool_goes_by_protocol_and_tier() {
    let address = PoolIdentifier::Address([9; 20]);
    let pool_id = PoolIdentifier::PoolId([9; 32]);
    assert!(matches!(
        create_pool(address, "uniswap_v3", raw(3, 1), Tier::Low),
        Ok(PoolCreationResult::V3Low(_))
    ));
    assert!(matches!(
        create_pool(address, "uniswap_v3", raw(3, 1), Tier::Active),
        Ok(PoolCreationResult::V3Active(_))
    ));
    assert!(matches!(
        create_pool(address, "uniswap_v3", raw(3, 1), Tier::Popular),
        Ok(PoolCreationResult::V3Popular(_))
    ));
    assert!(matches!(
        create_pool(address, "uniswap_v3", raw(3, 1), Tier::Major),
        Ok(PoolCreationResult::V3Major(_))
    ));
    assert!(matches!(
        create_pool(pool_id, "uniswap_v4", raw(3, 1), Tier::Low),
        Ok(PoolCreationResult::V4Low(_))
    ));
    assert!(matches!(
        create_pool(pool_id, "uniswap_v4", raw(3, 1), Tier::Active),
        Ok(PoolCreationResult::V4Active(_))
    ));
    assert!(matches!(
        create_pool(pool_id, "uniswap_v4", raw(3, 1), Tier::Popular),
        Ok(PoolCreationResult::V4Popular(_))
    ));
    match create_pool(pool_id, "uniswap_v4", raw(3, 1), Tier::Major) {
        Ok(PoolCreationResult::V4Major(pool)) => {
            assert_eq!(pool.identifier, pool_id);
            assert_eq!(pool.current_tick, 5);
            assert_eq!(pool.liquidity, 77);
            assert_eq!(pool.sqrt_price_x96, U160::from_u128(1 << 96));
            assert_eq!(pool.ticks.len(), 3);
            assert_eq!(pool.tick_bitmaps.len(), 1);
        }
        _ => panic!("a V4 pool of the major tier was due"),
    }
}

#[test]
fn create_pool_failures_are_pool_factory_errors() {
    let address = PoolIdentifier::Address([9; 20]);
    let pool_id = PoolIdentifier::PoolId([9; 32]);
    assert!(matches!(
        create_pool(pool_id, "uniswap_v2", raw(0, 0), Tier::Low),
        Err(StartupError::PoolFactory(_))
    ));
    assert!(matches!(
        create_pool(pool_id, "uniswap_v3", raw(0, 0), Tier::Low),
        Err(StartupError::PoolFactory(_))
    ));
    assert!(matches!(
        create_pool(address, "uniswap_v4", raw(0, 0), Tier::Low),
        Err(StartupError::PoolFactory(_))
    ));
    assert!(matches!(
        create_pool(address, "sushi_v1", raw(0, 0), Tier::Low),
        Err(StartupError::PoolFactory(_))
    ));
    assert!(matches!(
        create_pool(address, "uniswap_v3", raw(17, 0), Tier::Low),
        Err(StartupError::PoolFactory(_))
    ));
}

#[test]
fn add_pool_to_registry_routes_by_variant() {
    let mut registry = PoolArenaRegistry::new();
    let pair = create_pool(PoolIdentifier::Address([1; 20]), "uniswap_v2", raw(0, 0), Tier::Low)
        .unwrap();
    assert_eq!(add_pool_to_registry(&mut registry, pair), Ok(()));
    let v3 = create_pool(PoolIdentifier::Address([2; 20]), "uniswap_v3", raw(20, 0), Tier::Active)
        .unwrap();
    assert_eq!(add_pool_to_registry(&mut registry, v3), Ok(()));
    let v4 = create_pool(PoolIdentifier::PoolId([3; 32]), "uniswap_v4", raw(0, 0), Tier::Major)
        .unwrap();
    assert_eq!(add_pool_to_registry(&mut registry, v4), Ok(()));
    assert_eq!(
        registry.get_v2_pool_location([1; 20]),
        Some(PoolLocation { tier: Tier::Low, index: 0 })
    );
    assert_eq!(
        registry.get_v3_pool_location([2; 20]),
        Some(PoolLocation { tier: Tier::Active, index: 0 })
    );
    assert_eq!(
        registry.get_v4_pool_location([3; 32]),
        Some(PoolLocation { tier: Tier::Major, index: 0 })
    );
    // a second admission of the same identifier is an error of the registry
    let again = create_pool(PoolIdentifier::Address([2; 20]), "uniswap_v3", raw(0, 0), Tier::Low)
        .unwrap();
    assert_eq!(
        add_pool_to_registry(&mut registry, again),
        Err(StartupError::ArenaRegistry(String::from("Pool is held already")))
    );
    let again = create_pool(PoolIdentifier::Address([1; 20]), "uniswap_v2", raw(0, 0), Tier::Low)
        .unwrap();
    assert!(matches!(
        add_pool_to_registry(&mut registry, again),
        Err(StartupError::ArenaRegistry(_))
    ));
}

#[test]
fn refusals_are_described() {
    assert_eq!(
        describe_refusal(&RegistryError::DuplicatePool(PoolIdentifier::Address([0; 20]))),
        "Pool is held already"
    );
    assert_eq!(
        describe_refusal(&RegistryError::TierCapacityExceeded(Tier::Low)),
        "Pool exceeds the capacity of its tier"
    );
    assert_eq!(
        describe_refusal(&RegistryError::WrongIdentifierKind(PoolIdentifier::PoolId([0; 32]))),
        "Identifier is not of the family's kind"
    );
}

#[test]
fn wide_integers_round_trip() {
    assert_eq!(U256::from_u128(0), U256::zero());
    assert_eq!(U256::from_u128(u128::MAX).to_u128(), Some(u128::MAX));
    assert_eq!(U256::from_u128(u128::MAX), U256 { limbs: [u64::MAX, u64::MAX, 0, 0] });
    assert_eq!(U256 { limbs: [0, 0, 1, 0] }.to_u128(), None);
    assert_eq!(U256 { limbs: [0, 0, 0, 1] }.to_u128(), None);
    assert_eq!(I256::from_i128(0), I256::zero());
    assert_eq!(I256::from_i128(5), I256 { limbs: [5, 0, 0, 0] });
    assert_eq!(I256::from_i128(-1), I256 { limbs: [u64::MAX; 4] });
    assert_eq!(I256::from_i128(-5), I256 { limbs: [u64::MAX - 4, u64::MAX, u64::MAX, u64::MAX] });
    assert_eq!(
        I256::from_i128(i128::MIN),
        I256 { limbs: [0, 1 << 63, u64::MAX, u64::MAX] }
    );
    assert!(I256::from_i128(-1).is_negative());
    assert!(!I256::from_i128(0).is_negative());
    assert!(!I256::from_i128(i128::MAX).is_negative());
    assert_eq!(U160::from_limbs([1, 2, 0xffff_ffff]), Some(U160 { limbs: [1, 2, 0xffff_ffff] }));
    assert_eq!(U160::from_limbs([1, 2, 0x1_0000_0000]), None);
}

#[test]
fn wide_arithmetic_is_checked() {
    let one = U256::from_u128(1);
    let top = U256 { limbs: [u64::MAX; 4] };
    assert_eq!(top.checked_add(&one), None);
    assert_eq!(U256::zero().checked_sub(&one), None);
    assert_eq!(
        U256::from_u128(u128::MAX).checked_add(&one),
        Some(U256 { limbs: [0, 0, 1, 0] })
    );
    assert_eq!(
        U256 { limbs: [0, 0, 1, 0] }.checked_sub(&one),
        Some(U256::from_u128(u128::MAX))
    );
    assert_eq!(I256::from_i128(-7).unsigned_abs(), U256::from_u128(7));
    assert_eq!(I256::from_i128(7).unsigned_abs(), U256::from_u128(7));
    assert_eq!(I256::from_i128(i128::MIN).unsigned_abs(), U256::from_u128(1 << 127));
    let least = I256 { limbs: [0, 0, 0, 1 << 63] };
    assert!(least.is_negative());
    assert_eq!(least.unsigned_abs(), U256 { limbs: [0, 0, 0, 1 << 63] });
    assert_eq!(U256::from_u128(10).checked_add_signed(&I256::from_i128(-3)), Some(U256::from_u128(7)));
    assert_eq!(U256::from_u128(10).checked_add_signed(&I256::from_i128(-11)), None);
    assert_eq!(U256::from_u128(10).checked_sub_signed(&I256::from_i128(-3)), Some(U256::from_u128(13)));
    assert_eq!(U256::from_u128(10).checked_sub_signed(&I256::from_i128(11)), None);
    assert_eq!(top.checked_sub_signed(&I256::from_i128(-1)), None);
    assert_eq!(top.checked_add_signed(&least), Some(U256 { limbs: [u64::MAX, u64::MAX, u64::MAX, (1 << 63) - 1] }));
}
