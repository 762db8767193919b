use pool_state_arena::event_processor::EventProcessorError;
use pool_state_arena::messages::{PoolEvent, PoolIdentifier, SocketMessage};
use pool_state_arena::pool_factory::RawPoolState;
use pool_state_arena::pools::{net_liquidity_at, TickInfo, Tier};
use pool_state_arena::registry::{Family, PoolArenaRegistry, PoolLocation};
use pool_state_arena::socket_client::{ClientMode, FramingAnomaly};
use pool_state_arena::startup_coordinator::{
    categorize_pools, PoolInfo, Stage, StartupAction, StartupConfig, StartupCoordinator,
    StartupError, StartupMetrics, StartupMode, StartupPhase,
};
use pool_state_arena::wide::{I256, U160, U256};

const PAIR_A: [u8; 20] = [0xaa; 20];
const PAIR_B: [u8; 20] = [0xbb; 20];
const POOL_C: [u8; 20] = [0xcc; 20];
const POOL_D: [u8; 20] = [0xdd; 20];

fn hex_of(bytes: &[u8]) -> String {
    let mut text = String::from("0x");
    for b in bytes {
        text.push_str(&format!("{:02x}", b));
    }
    text
}

fn info(bytes: &[u8], protocol: &str) -> PoolInfo {
    PoolInfo { id: hex_of(bytes), protocol: String::from(protocol) }
}

fn pair_state(reserve0: u128, reserve1: u128) -> RawPoolState {
    RawPoolState {
        token0: [1; 20],
        token1: [2; 20],
        reserve0: U256::from_u128(reserve0),
        reserve1: U256::from_u128(reserve1),
        sqrt_price_x96: U160::zero(),
        current_tick: 0,
        liquidity: 0,
        ticks: Vec::new(),
        tick_bitmaps: Vec::new(),
    }
}

fn concentrated_state(ticks: usize, current_tick: i32, liquidity: u128) -> RawPoolState {
    let mut entries = Vec::new();
    for i in 0..ticks {
        entries.push(TickInfo { index: 1000 + i as i32, liquidity_net: 1 });
    }
    RawPoolState {
        token0: [1; 20],
        token1: [2; 20],
        reserve0: U256::zero(),
        reserve1: U256::zero(),
        sqrt_price_x96: U160::from_u128(1 << 96),
        current_tick,
        liquidity,
        ticks: entries,
        tick_bitmaps: Vec::new(),
    }
}

fn swap(block: u64, pool: [u8; 20], amount0: i128, amount1: i128) -> PoolEvent {
    PoolEvent {
        block_number: block,
        transaction_index: 0,
        log_index: 0,
        protocol: String::from("uniswap_v2"),
        event_type: String::from("Swap"),
        pool_address: pool,
        pool_id: None,
        amount0: I256::from_i128(amount0),
        amount1: I256::from_i128(amount1),
        sqrt_price_x96: None,
        tick: None,
        liquidity: None,
        tick_lower: None,
        tick_upper: None,
        liquidity_delta: None,
        is_revert: false,
    }
}

fn v3_mint(block: u64, pool: [u8; 20], lower: i32, upper: i32, delta: i128) -> PoolEvent {
    let mut e = swap(block, pool, 0, 0);
    e.protocol = String::from("uniswap_v3");
    e.event_type = String::from("Mint");
    e.tick_lower = Some(lower);
    e.tick_upper = Some(upper);
    e.liquidity_delta = Some(delta);
    e
}

fn buffer_block(coordinator: &mut StartupCoordinator, block: u64, events: Vec<PoolEvent>) {
    let n = events.len() as u64;
    coordinator
        .handle_stream_message(SocketMessage::BeginBlock { block_number: block, is_revert: false })
        .unwrap();
    for e in events {
        coordinator.handle_stream_message(SocketMessage::PoolUpdate(e)).unwrap();
    }
    coordinator
        .handle_stream_message(SocketMessage::EndBlock { block_number: block, num_updates: n })
        .unwrap();
}

/// Drives a load to its end: every pool asked for is answered from `scrape`, and every
/// question for the current block with `block`.
fn drive(
    coordinator: &mut StartupCoordinator,
    registry: &mut PoolArenaRegistry,
    block: u64,
    scrape: &dyn Fn(&PoolIdentifier, &str) -> Result<RawPoolState, String>,
) -> Vec<StartupAction> {
    let mut seen = Vec::new();
    let mut now = 100;
    for _ in 0..1000 {
        now += 10;
        let action = coordinator.advance(registry, now);
        let done = matches!(action, StartupAction::Done | StartupAction::Failed(_));
        match &action {
            StartupAction::ScrapePool { identifier, protocol } => {
                let scraped = scrape(identifier, protocol);
                coordinator.pool_scraped(registry, scraped);
            }
            StartupAction::QueryCurrentBlock => {
                coordinator.current_block_reported(block, now);
            }
            StartupAction::Connect { .. } => {
                coordinator.phase_1_connect_socket(Ok(()), now);
            }
            _ => {}
        }
        seen.push(action);
        if done {
            return seen;
        }
    }
    panic!("the load did not come to an end");
}

fn baseline(identifier: &PoolIdentifier, _protocol: &str) -> Result<RawPoolState, String> {
    match identifier {
        PoolIdentifier::Address(a) if *a == PAIR_A => Ok(pair_state(100, 100)),
        PoolIdentifier::Address(a) if *a == PAIR_B => Ok(pair_state(200, 50)),
        PoolIdentifier::Address(a) if *a == POOL_C => Ok(concentrated_state(0, 0, 0)),
        PoolIdentifier::Address(a) if *a == POOL_D => Ok(concentrated_state(20, 100, 1_000)),
        _ => Err(String::from("no such pool")),
    }
}

fn whitelist() -> Vec<PoolInfo> {
    vec![
        info(&POOL_C, "uniswap_v3"),
        info(&PAIR_A, "uniswap_v2"),
        info(&PAIR_B, "uniswap_v2"),
    ]
}

fn reserves(registry: &PoolArenaRegistry, pool: [u8; 20]) -> (u128, u128) {
    let location = registry.get_v2_pool_location(pool).unwrap();
    let pair = registry.v2_pool(location.index);
    (pair.reserve0.to_u128().unwrap(), pair.reserve1.to_u128().unwrap())
}

fn live_coordinator(registry: &mut PoolArenaRegistry) -> StartupCoordinator {
    let mut coordinator = StartupCoordinator::new(StartupConfig::cold_start());
    coordinator.run_cold_start(whitelist(), 0).unwrap();
    coordinator.phase_1_connect_socket(Ok(()), 1);
    drive(&mut coordinator, registry, 100, &baseline);
    assert!(coordinator.is_live());
    coordinator
}

#[test]
fn pool_info_knows_its_family() {
    let v2 = PoolInfo { id: String::from("x"), protocol: String::from("uniswap_v2") };
    let v3 = PoolInfo { id: String::from("x"), protocol: String::from("uniswap_v3") };
    let v4 = PoolInfo { id: String::from("x"), protocol: String::from("uniswap_v4") };
    let other = PoolInfo { id: String::from("x"), protocol: String::from("sushi_v1") };
    assert!(v2.is_v2());
    assert!(!v2.is_v3_or_v4());
    assert!(!v3.is_v2());
    assert!(v3.is_v3_or_v4());
    assert!(v4.is_v3_or_v4());
    assert!(!other.is_v2());
    assert!(!other.is_v3_or_v4());
}

#[test]
fn config_defaults() {
    let cold = StartupConfig::cold_start();
    assert_eq!(cold.socket_path, "/tmp/reth_exex.sock");
    assert_eq!(cold.buffer_capacity, 100_000);
    assert_eq!(cold.v2_scrape_batch_size, 500);
    assert_eq!(cold.v3_v4_scrape_batch_size, 50);
    assert_eq!(cold.scraping_concurrency, 4);
    assert!(cold.parallel_scraping);
    let incremental = StartupConfig::incremental();
    assert_eq!(incremental.socket_path, "/tmp/reth_exex.sock");
    assert_eq!(incremental.buffer_capacity, 10_000);
    assert_eq!(incremental.v2_scrape_batch_size, 100);
    assert_eq!(incremental.v3_v4_scrape_batch_size, 10);
    assert_eq!(incremental.scraping_concurrency, 2);
    assert!(incremental.parallel_scraping);
}

#[test]
fn categorize_pools_parts_pairs_from_the_rest() {
    let pools = vec![
        info(&[1; 20], "uniswap_v3"),
        info(&[2; 20], "uniswap_v2"),
        info(&[3; 32], "uniswap_v4"),
        info(&[4; 20], "sushi_v1"),
        info(&[5; 20], "uniswap_v2"),
    ];
    let (v2, rest) = categorize_pools(pools.clone());
    assert_eq!(v2, vec![pools[1].clone(), pools[4].clone()]);
    assert_eq!(rest, vec![pools[0].clone(), pools[2].clone(), pools[3].clone()]);
    let (v2, rest) = categorize_pools(Vec::new());
    assert!(v2.is_empty() && rest.is_empty());
}

#[test]
fn new_coordinator_has_not_started() {
    let mut coordinator = StartupCoordinator::new(StartupConfig::cold_start());
    assert_eq!(*coordinator.phase(), StartupPhase::NotStarted);
    assert!(!coordinator.is_live());
    assert_eq!(coordinator.stage(), Stage::Idle);
    assert_eq!(*coordinator.metrics(), StartupMetrics::default());
    assert_eq!(coordinator.reference_block(), None);
    assert!(coordinator.socket_client_mut().is_none());
    assert!(!coordinator.is_loaded(&PoolIdentifier::Address(PAIR_A)));
    assert_eq!(StartupMode::ColdStart, StartupMode::ColdStart);
}

#[test]
fn happy_cold_start() {
    let mut registry = PoolArenaRegistry::new();
    let mut coordinator = StartupCoordinator::new(StartupConfig::cold_start());
    assert_eq!(
        coordinator.run_cold_start(whitelist(), 7),
        Ok(StartupAction::Connect { delay_ms: 0 })
    );
    assert_eq!(*coordinator.phase(), StartupPhase::ConnectingSocket);
    assert_eq!(coordinator.phase_1_connect_socket(Ok(()), 9), StartupAction::Continue);
    assert_eq!(
        *coordinator.phase(),
        StartupPhase::ScrapingPools { v2_completed: 0, v2_total: 2, v3_v4_completed: 0, v3_v4_total: 1 }
    );
    // while scraping, the client buffers an empty block 10 and a swap at block 11
    buffer_block(&mut coordinator, 10, Vec::new());
    buffer_block(&mut coordinator, 11, vec![swap(11, PAIR_A, -5, 5)]);
    let actions = drive(&mut coordinator, &mut registry, 10, &baseline);
    assert_eq!(actions.last(), Some(&StartupAction::Done));
    assert_eq!(reserves(&registry, PAIR_A), (95, 105));
    assert_eq!(reserves(&registry, PAIR_B), (200, 50));
    assert_eq!(
        registry.get_v3_pool_location(POOL_C),
        Some(PoolLocation { tier: Tier::Low, index: 0 })
    );
    assert_eq!(*coordinator.phase(), StartupPhase::Live);
    assert!(coordinator.is_live());
    assert_eq!(coordinator.stage(), Stage::Idle);
    assert_eq!(coordinator.reference_block(), Some(10));
    let metrics = coordinator.metrics();
    assert_eq!(metrics.v2_pools_scraped, 2);
    assert_eq!(metrics.v3_v4_pools_scraped, 1);
    assert_eq!(metrics.pools_failed, 0);
    assert_eq!(metrics.events_buffered, 1);
    assert_eq!(metrics.events_replayed, 1);
    assert_eq!(metrics.startup_started_at, Some(7));
    assert_eq!(metrics.socket_connected_at, Some(9));
    assert_eq!(metrics.scraping_started_at, Some(9));
    assert!(metrics.live_mode_started_at.is_some());
    assert_eq!(
        metrics.total_startup_duration_ms,
        Some(metrics.live_mode_started_at.unwrap() - 7)
    );
    assert!(coordinator.is_loaded(&PoolIdentifier::Address(PAIR_A)));
    assert!(coordinator.is_loaded(&PoolIdentifier::Address(PAIR_B)));
    assert!(coordinator.is_loaded(&PoolIdentifier::Address(POOL_C)));
    assert_eq!(coordinator.replay_stats().v2_swaps_processed, 1);
    let client = coordinator.socket_client_mut().unwrap();
    assert_eq!(client.mode(), ClientMode::Live);
    assert_eq!(client.buffered_count(), 0);
}

#[test]
fn cold_start_scrapes_pairs_first_then_asks_for_the_block() {
    let mut registry = PoolArenaRegistry::new();
    let mut coordinator = StartupCoordinator::new(StartupConfig::cold_start());
    coordinator.run_cold_start(whitelist(), 0).unwrap();
    coordinator.phase_1_connect_socket(Ok(()), 0);
    let actions = drive(&mut coordinator, &mut registry, 10, &baseline);
    let asked: Vec<&StartupAction> = actions
        .iter()
        .filter(|a| {
            matches!(a, StartupAction::ScrapePool { .. } | StartupAction::QueryCurrentBlock)
        })
        .collect();
    assert_eq!(
        asked,
        vec![
            &StartupAction::ScrapePool {
                identifier: PoolIdentifier::Address(PAIR_A),
                protocol: String::from("uniswap_v2")
            },
            &StartupAction::ScrapePool {
                identifier: PoolIdentifier::Address(PAIR_B),
                protocol: String::from("uniswap_v2")
            },
            &StartupAction::QueryCurrentBlock,
            &StartupAction::ScrapePool {
                identifier: PoolIdentifier::Address(POOL_C),
                protocol: String::from("uniswap_v3")
            },
        ]
    );
}

#[test]
fn cold_start_without_pairs_asks_for_the_block_after_the_other_pools() {
    let mut registry = PoolArenaRegistry::new();
    let mut coordinator = StartupCoordinator::new(StartupConfig::cold_start());
    coordinator.run_cold_start(vec![info(&POOL_C, "uniswap_v3")], 0).unwrap();
    coordinator.phase_1_connect_socket(Ok(()), 0);
    let actions = drive(&mut coordinator, &mut registry, 55, &baseline);
    let asked: Vec<&StartupAction> = actions
        .iter()
        .filter(|a| {
            matches!(a, StartupAction::ScrapePool { .. } | StartupAction::QueryCurrentBlock)
        })
        .collect();
    assert_eq!(
        asked,
        vec![
            &StartupAction::ScrapePool {
                identifier: PoolIdentifier::Address(POOL_C),
                protocol: String::from("uniswap_v3")
            },
            &StartupAction::QueryCurrentBlock,
        ]
    );
    assert_eq!(coordinator.reference_block(), Some(55));
    assert_eq!(coordinator.metrics().v2_scraping_duration_ms, None);
    assert!(coordinator.metrics().v3_v4_scraping_duration_ms.is_some());
    assert!(coordinator.is_live());
}

#[test]
fn cold_start_with_no_pools_goes_live_without_a_reference_block() {
    let mut registry = PoolArenaRegistry::new();
    let mut coordinator = StartupCoordinator::new(StartupConfig::cold_start());
    coordinator.run_cold_start(Vec::new(), 0).unwrap();
    coordinator.phase_1_connect_socket(Ok(()), 0);
    buffer_block(&mut coordinator, 1, vec![swap(1, PAIR_A, 1, 1)]);
    let actions = drive(&mut coordinator, &mut registry, 10, &baseline);
    assert!(!actions.contains(&StartupAction::QueryCurrentBlock));
    assert_eq!(coordinator.reference_block(), None);
    assert!(coordinator.is_live());
    // without a reference block every event after block 0 is replayed; this one finds no pool
    assert_eq!(coordinator.metrics().events_buffered, 1);
    assert_eq!(coordinator.metrics().events_replayed, 0);
    assert_eq!(coordinator.replay_stats().errors, 1);
}

#[test]
fn stale_replay_event_is_dropped() {
    let mut registry = PoolArenaRegistry::new();
    let mut coordinator = StartupCoordinator::new(StartupConfig::cold_start());
    coordinator.run_cold_start(whitelist(), 0).unwrap();
    coordinator.phase_1_connect_socket(Ok(()), 0);
    buffer_block(&mut coordinator, 9, vec![swap(9, PAIR_A, -5, 5)]);
    buffer_block(&mut coordinator, 10, vec![swap(10, PAIR_A, -7, 7)]);
    drive(&mut coordinator, &mut registry, 10, &baseline);
    assert_eq!(reserves(&registry, PAIR_A), (100, 100));
    assert_eq!(coordinator.metrics().events_buffered, 2);
    assert_eq!(coordinator.metrics().events_replayed, 0);
    assert_eq!(coordinator.replay_stats().v2_swaps_processed, 0);
    assert!(coordinator.is_live());
}

#[test]
fn replay_applies_events_in_chronological_order_and_reports_failures() {
    let mut registry = PoolArenaRegistry::new();
    let mut coordinator = StartupCoordinator::new(StartupConfig::cold_start());
    coordinator.run_cold_start(whitelist(), 0).unwrap();
    coordinator.phase_1_connect_socket(Ok(()), 0);
    // block 12 arrives before block 11: the second swap would fail if it came first
    buffer_block(&mut coordinator, 12, vec![swap(12, PAIR_A, -150, 0)]);
    buffer_block(&mut coordinator, 11, vec![swap(11, PAIR_A, 100, 0), swap(11, [9; 20], 1, 1)]);
    let actions = drive(&mut coordinator, &mut registry, 10, &baseline);
    assert_eq!(reserves(&registry, PAIR_A), (50, 100));
    let report = actions.iter().find_map(|a| match a {
        StartupAction::Replayed(report) => Some(report),
        _ => None,
    });
    let report = report.unwrap();
    assert_eq!(report.buffered.len(), 3);
    assert_eq!(report.buffered[0].block_number, 11);
    assert_eq!(report.buffered[2].block_number, 12);
    assert_eq!(
        report.errors,
        vec![EventProcessorError::PoolNotFound(PoolIdentifier::Address([9; 20]))]
    );
    assert_eq!(coordinator.metrics().events_buffered, 3);
    assert_eq!(coordinator.metrics().events_replayed, 2);
}

#[test]
fn replay_shows_its_progress_in_thousands() {
    let mut registry = PoolArenaRegistry::new();
    let mut coordinator = StartupCoordinator::new(StartupConfig::cold_start());
    coordinator.run_cold_start(whitelist(), 0).unwrap();
    coordinator.phase_1_connect_socket(Ok(()), 0);
    let mut events = Vec::new();
    for i in 0..1500u32 {
        let mut e = swap(11, PAIR_A, 1, 1);
        e.log_index = i;
        events.push(e);
    }
    buffer_block(&mut coordinator, 11, events);
    let mut phases = Vec::new();
    for now in 0..100 {
        let action = coordinator.advance(&mut registry, now);
        phases.push(*coordinator.phase());
        match action {
            StartupAction::ScrapePool { identifier, protocol } => {
                coordinator.pool_scraped(&mut registry, baseline(&identifier, &protocol));
            }
            StartupAction::QueryCurrentBlock => {
                coordinator.current_block_reported(10, now);
            }
            StartupAction::Done => break,
            _ => {}
        }
    }
    assert!(phases.contains(&StartupPhase::ReplayingEvents {
        events_completed: 1000,
        events_total: 1500
    }));
    assert_eq!(reserves(&registry, PAIR_A), (1600, 1600));
    assert_eq!(coordinator.metrics().events_replayed, 1500);
}

#[test]
fn phase_never_goes_back_during_a_cold_start() {
    fn rank(phase: &StartupPhase) -> u8 {
        match phase {
            StartupPhase::NotStarted => 0,
            StartupPhase::ConnectingSocket => 1,
            StartupPhase::ScrapingPools { .. } => 2,
            StartupPhase::ReplayingEvents { .. } => 3,
            StartupPhase::Live => 4,
        }
    }
    let mut registry = PoolArenaRegistry::new();
    let mut coordinator = StartupCoordinator::new(StartupConfig::cold_start());
    let mut ranks = vec![rank(coordinator.phase())];
    coordinator.run_cold_start(whitelist(), 0).unwrap();
    ranks.push(rank(coordinator.phase()));
    coordinator.phase_1_connect_socket(Err(String::from("refused")), 0);
    ranks.push(rank(coordinator.phase()));
    coordinator.phase_1_connect_socket(Ok(()), 0);
    ranks.push(rank(coordinator.phase()));
    for now in 0..100 {
        let action = coordinator.advance(&mut registry, now);
        ranks.push(rank(coordinator.phase()));
        match action {
            StartupAction::ScrapePool { identifier, protocol } => {
                coordinator.pool_scraped(&mut registry, baseline(&identifier, &protocol));
            }
            StartupAction::QueryCurrentBlock => {
                coordinator.current_block_reported(10, now);
            }
            StartupAction::Done => break,
            _ => {}
        }
        ranks.push(rank(coordinator.phase()));
    }
    assert_eq!(ranks.first(), Some(&0));
    assert_eq!(ranks.last(), Some(&4));
    assert!(ranks.windows(2).all(|w| w[0] <= w[1]));
    assert!(ranks.contains(&1) && ranks.contains(&2) && ranks.contains(&3));
}

#[test]
fn scraping_shows_its_progress() {
    let mut registry = PoolArenaRegistry::new();
    let mut coordinator = StartupCoordinator::new(StartupConfig::cold_start());
    coordinator.run_cold_start(whitelist(), 0).unwrap();
    coordinator.phase_1_connect_socket(Ok(()), 0);
    assert!(matches!(coordinator.advance(&mut registry, 1), StartupAction::ScrapePool { .. }));
    // asking again repeats the request
    assert_eq!(
        coordinator.advance(&mut registry, 1),
        StartupAction::ScrapePool {
            identifier: PoolIdentifier::Address(PAIR_A),
            protocol: String::from("uniswap_v2")
        }
    );
    coordinator.pool_scraped(&mut registry, Ok(pair_state(1, 1)));
    assert_eq!(
        *coordinator.phase(),
        StartupPhase::ScrapingPools { v2_completed: 1, v2_total: 2, v3_v4_completed: 0, v3_v4_total: 1 }
    );
    coordinator.advance(&mut registry, 2);
    coordinator.pool_scraped(&mut registry, Err(String::from("gone")));
    assert_eq!(
        *coordinator.phase(),
        StartupPhase::ScrapingPools { v2_completed: 2, v2_total: 2, v3_v4_completed: 0, v3_v4_total: 1 }
    );
    assert_eq!(coordinator.metrics().v2_pools_scraped, 1);
    assert_eq!(coordinator.metrics().pools_failed, 1);
    assert_eq!(coordinator.advance(&mut registry, 30), StartupAction::QueryCurrentBlock);
    assert_eq!(coordinator.metrics().v2_scraping_duration_ms, Some(30));
    assert_eq!(coordinator.stage(), Stage::AwaitingBlockAfterV2);
    // asking again repeats the question
    assert_eq!(coordinator.advance(&mut registry, 31), StartupAction::QueryCurrentBlock);
    coordinator.current_block_reported(10, 40);
    assert_eq!(coordinator.stage(), Stage::ScrapingV3V4);
    coordinator.advance(&mut registry, 41);
    coordinator.pool_scraped(&mut registry, Ok(concentrated_state(0, 0, 0)));
    assert_eq!(
        *coordinator.phase(),
        StartupPhase::ScrapingPools { v2_completed: 2, v2_total: 2, v3_v4_completed: 1, v3_v4_total: 1 }
    );
    assert_eq!(coordinator.advance(&mut registry, 90), StartupAction::Continue);
    assert_eq!(coordinator.metrics().v3_v4_scraping_duration_ms, Some(50));
    assert_eq!(coordinator.metrics().scraping_completed_at, Some(90));
    assert_eq!(coordinator.stage(), Stage::Replaying);
}

#[test]
fn failed_pools_are_counted_and_the_load_goes_on() {
    let mut registry = PoolArenaRegistry::new();
    let mut coordinator = StartupCoordinator::new(StartupConfig::cold_start());
    let pools = vec![
        PoolInfo { id: String::from("0x1234"), protocol: String::from("uniswap_v2") },
        info(&PAIR_A, "uniswap_v2"),
        info(&[0x77; 20], "uniswap_v2"),
        info(&POOL_C, "sushi_v1"),
        info(&POOL_C, "uniswap_v4"),
        info(&PAIR_A, "uniswap_v2"),
    ];
    coordinator.run_cold_start(pools, 0).unwrap();
    coordinator.phase_1_connect_socket(Ok(()), 0);
    let actions = drive(&mut coordinator, &mut registry, 10, &baseline);
    assert_eq!(actions.last(), Some(&StartupAction::Done));
    // unreadable identifier, scraper failure, duplicate pair, unknown protocol, address for V4
    assert_eq!(coordinator.metrics().pools_failed, 5);
    assert_eq!(coordinator.metrics().v2_pools_scraped, 1);
    assert_eq!(coordinator.metrics().v3_v4_pools_scraped, 0);
    assert_eq!(registry.v2_pool_count(), 1);
    assert!(coordinator.is_loaded(&PoolIdentifier::Address(PAIR_A)));
    assert!(!coordinator.is_loaded(&PoolIdentifier::Address([0x77; 20])));
    assert!(coordinator.is_live());
}

#[test]
fn scraped_pool_stands_at_the_tier_of_its_ticks() {
    let mut registry = PoolArenaRegistry::new();
    let mut coordinator = StartupCoordinator::new(StartupConfig::cold_start());
    coordinator
        .run_cold_start(vec![info(&POOL_C, "uniswap_v3"), info(&POOL_D, "uniswap_v3")], 0)
        .unwrap();
    coordinator.phase_1_connect_socket(Ok(()), 0);
    drive(&mut coordinator, &mut registry, 10, &baseline);
    assert_eq!(
        registry.get_v3_pool_location(POOL_C),
        Some(PoolLocation { tier: Tier::Low, index: 0 })
    );
    let location = registry.get_v3_pool_location(POOL_D).unwrap();
    assert_eq!(location, PoolLocation { tier: Tier::Active, index: 0 });
    let pool = registry.pool(Family::V3, location);
    assert_eq!(pool.identifier, PoolIdentifier::Address(POOL_D));
    assert_eq!(pool.ticks.len(), 20);
    assert_eq!(pool.liquidity, 1_000);
    assert_eq!(pool.current_tick, 100);
}

#[test]
fn scrape_and_add_pool_reports_each_failure() {
    let mut registry = PoolArenaRegistry::new();
    let mut coordinator = StartupCoordinator::new(StartupConfig::cold_start());
    let pair = PoolIdentifier::Address(PAIR_A);
    assert_eq!(
        coordinator.scrape_and_add_pool(
            &mut registry,
            pair,
            "uniswap_v2",
            Err(String::from("timeout"))
        ),
        Err(StartupError::Scraper(String::from("timeout")))
    );
    assert!(matches!(
        coordinator.scrape_and_add_pool(&mut registry, pair, "sushi_v1", Ok(pair_state(1, 1))),
        Err(StartupError::PoolFactory(_))
    ));
    assert!(!coordinator.is_loaded(&pair));
    assert_eq!(
        coordinator.scrape_and_add_pool(&mut registry, pair, "uniswap_v2", Ok(pair_state(1, 2))),
        Ok(())
    );
    assert!(coordinator.is_loaded(&pair));
    assert!(matches!(
        coordinator.scrape_and_add_pool(&mut registry, pair, "uniswap_v2", Ok(pair_state(3, 4))),
        Err(StartupError::ArenaRegistry(_))
    ));
    assert_eq!(reserves(&registry, PAIR_A), (1, 2));
}

#[test]
fn connection_failures_retry_and_then_fail_the_cold_start() {
    let mut coordinator = StartupCoordinator::new(StartupConfig::cold_start());
    coordinator.run_cold_start(whitelist(), 0).unwrap();
    let expected = [100u64, 200, 400, 800, 1600, 3200, 6400, 10_000, 10_000];
    for delay in expected {
        assert_eq!(
            coordinator.phase_1_connect_socket(Err(String::from("refused")), 0),
            StartupAction::Connect { delay_ms: delay }
        );
    }
    assert_eq!(
        coordinator.phase_1_connect_socket(Err(String::from("refused")), 0),
        StartupAction::Failed(StartupError::SocketClient(String::from(
            "Socket connection error: Failed to connect after 10 attempts: refused"
        )))
    );
    assert_eq!(coordinator.stage(), Stage::Idle);
    assert_eq!(*coordinator.phase(), StartupPhase::ConnectingSocket);
    assert!(!coordinator.is_live());
    // a report that is not waited for changes nothing
    assert_eq!(coordinator.phase_1_connect_socket(Ok(()), 0), StartupAction::Continue);
    assert_eq!(*coordinator.phase(), StartupPhase::ConnectingSocket);
}

#[test]
fn buffer_overflow_aborts_the_cold_start() {
    let mut registry = PoolArenaRegistry::new();
    let mut config = StartupConfig::cold_start();
    config.buffer_capacity = 3;
    let mut coordinator = StartupCoordinator::new(config);
    coordinator.run_cold_start(whitelist(), 0).unwrap();
    coordinator.phase_1_connect_socket(Ok(()), 0);
    coordinator
        .handle_stream_message(SocketMessage::BeginBlock { block_number: 5, is_revert: false })
        .unwrap();
    for i in 0..4 {
        let mut e = swap(5, PAIR_A, 1, 1);
        e.log_index = i;
        coordinator.handle_stream_message(SocketMessage::PoolUpdate(e)).unwrap();
    }
    let result = coordinator
        .handle_stream_message(SocketMessage::EndBlock { block_number: 5, num_updates: 4 });
    assert_eq!(
        result,
        Err(StartupError::SocketClient(String::from("Buffer overflow: capacity 3, attempted 4")))
    );
    assert_eq!(coordinator.stage(), Stage::Idle);
    assert!(!coordinator.is_live());
    assert_eq!(coordinator.advance(&mut registry, 1), StartupAction::Done);
    assert!(!coordinator.is_live());
    assert_eq!(registry.v2_pool_count(), 0);
}

#[test]
fn framing_violation_during_startup_is_a_socket_client_error() {
    let mut coordinator = StartupCoordinator::new(StartupConfig::cold_start());
    assert!(matches!(
        coordinator.handle_stream_message(SocketMessage::BeginBlock {
            block_number: 5,
            is_revert: false
        }),
        Err(StartupError::SocketClient(_))
    ));
    coordinator.run_cold_start(whitelist(), 0).unwrap();
    coordinator.phase_1_connect_socket(Ok(()), 0);
    coordinator
        .handle_stream_message(SocketMessage::BeginBlock { block_number: 5, is_revert: false })
        .unwrap();
    assert!(matches!(
        coordinator.handle_stream_message(SocketMessage::PoolUpdate(swap(6, PAIR_A, 1, 1))),
        Err(StartupError::SocketClient(_))
    ));
    assert_eq!(coordinator.stage(), Stage::ScrapingV2);
}

#[test]
fn stream_data_is_framed_during_startup() {
    let mut coordinator = StartupCoordinator::new(StartupConfig::cold_start());
    assert!(matches!(
        coordinator.buffer_stream_data(&[1, 2, 3]),
        Err(StartupError::SocketClient(_))
    ));
    coordinator.run_cold_start(whitelist(), 0).unwrap();
    // not yet connected
    assert_eq!(
        coordinator.buffer_stream_data(&[1, 2, 3]),
        Err(StartupError::SocketClient(String::from("Socket connection error: Not connected")))
    );
    coordinator.phase_1_connect_socket(Ok(()), 0);
    assert_eq!(coordinator.buffer_stream_data(&[2, 0, 0]), Ok(Vec::new()));
    assert_eq!(coordinator.buffer_stream_data(&[0, 7, 8, 1]), Ok(vec![vec![7u8, 8]]));
    assert_eq!(
        coordinator.buffer_stream_data(&[]),
        Err(StartupError::SocketClient(String::from(
            "Socket connection error: Socket closed by remote"
        )))
    );
}

#[test]
fn cold_start_while_live_is_refused() {
    let mut registry = PoolArenaRegistry::new();
    let mut coordinator = live_coordinator(&mut registry);
    assert_eq!(coordinator.run_cold_start(whitelist(), 0), Err(StartupError::AlreadyLive));
    assert!(coordinator.is_live());
    assert_eq!(coordinator.stage(), Stage::Idle);
}

#[test]
fn incremental_add_before_live_is_refused() {
    let mut coordinator = StartupCoordinator::new(StartupConfig::cold_start());
    assert_eq!(
        coordinator.add_pools_incremental(vec![info(&POOL_D, "uniswap_v3")]),
        Err(StartupError::NotLive)
    );
    coordinator.run_cold_start(whitelist(), 0).unwrap();
    assert_eq!(
        coordinator.add_pools_incremental(vec![info(&POOL_D, "uniswap_v3")]),
        Err(StartupError::NotLive)
    );
    assert_eq!(coordinator.stage(), Stage::Connecting);
}

#[test]
fn incremental_add_while_live() {
    let mut registry = PoolArenaRegistry::new();
    let mut coordinator = live_coordinator(&mut registry);
    let scraped_before = coordinator.metrics().v3_v4_pools_scraped;
    assert_eq!(
        coordinator.add_pools_incremental(vec![info(&POOL_D, "uniswap_v3")]),
        Ok(StartupAction::QueryCurrentBlock)
    );
    assert!(coordinator.is_live());
    assert!(coordinator.socket_client_mut().is_some());
    assert_eq!(coordinator.current_block_reported(100, 0), StartupAction::Continue);
    assert_eq!(coordinator.reference_block(), Some(100));
    // blocks 100 to 103 stream in while the pool is scraped
    buffer_block(&mut coordinator, 100, vec![v3_mint(100, POOL_D, 50, 150, 1)]);
    buffer_block(&mut coordinator, 101, vec![v3_mint(101, POOL_D, 50, 150, 10)]);
    buffer_block(&mut coordinator, 102, vec![v3_mint(102, POOL_D, 200, 300, 5)]);
    buffer_block(&mut coordinator, 103, vec![swap(103, PAIR_A, 1, 1)]);
    let actions = drive(&mut coordinator, &mut registry, 100, &baseline);
    assert_eq!(actions.last(), Some(&StartupAction::Done));
    assert!(!actions.contains(&StartupAction::QueryCurrentBlock));
    let location = registry.get_v3_pool_location(POOL_D).unwrap();
    assert_eq!(location.tier, Tier::Active);
    let pool = registry.pool(Family::V3, location);
    assert_eq!(pool.liquidity, 1_010);
    assert_eq!(net_liquidity_at(&pool.ticks, 50), 10);
    assert_eq!(net_liquidity_at(&pool.ticks, 150), -10);
    assert_eq!(net_liquidity_at(&pool.ticks, 200), 5);
    assert_eq!(net_liquidity_at(&pool.ticks, 300), -5);
    assert_eq!(pool.ticks.len(), 24);
    assert_eq!(reserves(&registry, PAIR_A), (101, 101));
    assert!(coordinator.is_live());
    assert_eq!(*coordinator.phase(), StartupPhase::Live);
    assert_eq!(coordinator.metrics().v3_v4_pools_scraped, scraped_before + 1);
    assert!(coordinator.is_loaded(&PoolIdentifier::Address(POOL_D)));
    let client = coordinator.socket_client_mut().unwrap();
    assert_eq!(client.mode(), ClientMode::Live);
    assert_eq!(client.buffered_count(), 0);
}

#[test]
fn incremental_add_buffers_with_the_capacity_of_the_settings() {
    let mut registry = PoolArenaRegistry::new();
    let mut coordinator = live_coordinator(&mut registry);
    coordinator.add_pools_incremental(Vec::new()).unwrap();
    assert_eq!(coordinator.stage(), Stage::AwaitingReference);
    let mut registry_unused = PoolArenaRegistry::new();
    assert_eq!(
        coordinator.advance(&mut registry_unused, 0),
        StartupAction::QueryCurrentBlock
    );
    let client = coordinator.socket_client_mut().unwrap();
    assert_eq!(client.mode(), ClientMode::Buffering { capacity: 100_000 });
}

#[test]
fn adding_a_loaded_pool_again_fails_that_pool_only() {
    let mut registry = PoolArenaRegistry::new();
    let mut coordinator = live_coordinator(&mut registry);
    let failed_before = coordinator.metrics().pools_failed;
    coordinator
        .add_pools_incremental(vec![info(&PAIR_A, "uniswap_v2"), info(&POOL_D, "uniswap_v3")])
        .unwrap();
    coordinator.current_block_reported(100, 0);
    drive(&mut coordinator, &mut registry, 100, &baseline);
    assert_eq!(coordinator.metrics().pools_failed, failed_before + 1);
    assert_eq!(registry.v2_pool_count(), 2);
    assert!(registry.get_v3_pool_location(POOL_D).is_some());
}

#[test]
fn reports_that_are_not_waited_for_change_nothing() {
    let mut registry = PoolArenaRegistry::new();
    let mut coordinator = StartupCoordinator::new(StartupConfig::cold_start());
    assert_eq!(
        coordinator.pool_scraped(&mut registry, Ok(pair_state(1, 1))),
        StartupAction::Continue
    );
    assert_eq!(coordinator.current_block_reported(5, 0), StartupAction::Continue);
    assert_eq!(coordinator.phase_2_scrape_pools(0), StartupAction::Continue);
    assert_eq!(coordinator.advance(&mut registry, 0), StartupAction::Done);
    assert_eq!(registry.v2_pool_count(), 0);
    assert_eq!(coordinator.reference_block(), None);
    assert_eq!(*coordinator.phase(), StartupPhase::NotStarted);
    assert_eq!(*coordinator.metrics(), StartupMetrics::default());
}

#[test]
fn replay_without_a_client_fails() {
    let mut registry = PoolArenaRegistry::new();
    let mut coordinator = StartupCoordinator::new(StartupConfig::cold_start());
    assert_eq!(
        coordinator.phase_3_replay_events(&mut registry, 5).err(),
        Some(StartupError::SocketClient(String::from("No socket client")))
    );
    assert_eq!(coordinator.metrics().replay_started_at, Some(5));
}

#[test]
fn apply_event_uses_the_event_processor() {
    let mut registry = PoolArenaRegistry::new();
    registry
        .add_uniswap_v2_pool(PAIR_A, U256::from_u128(10), U256::from_u128(10), [1; 20], [2; 20])
        .unwrap();
    let mut coordinator = StartupCoordinator::new(StartupConfig::cold_start());
    assert_eq!(coordinator.apply_event(&mut registry, &swap(1, PAIR_A, 5, -5)), Ok(()));
    assert_eq!(reserves(&registry, PAIR_A), (15, 5));
    assert_eq!(
        coordinator.apply_event(&mut registry, &swap(1, PAIR_B, 5, -5)),
        Err(EventProcessorError::PoolNotFound(PoolIdentifier::Address(PAIR_B)))
    );
    assert_eq!(coordinator.replay_stats().v2_swaps_processed, 1);
    assert_eq!(coordinator.replay_stats().errors, 1);
}

#[test]
fn go_live_notes_the_times() {
    let mut coordinator = StartupCoordinator::new(StartupConfig::cold_start());
    coordinator.run_cold_start(Vec::new(), 100).unwrap();
    coordinator.phase_4_go_live(250);
    assert!(coordinator.is_live());
    let metrics = coordinator.metrics();
    assert_eq!(metrics.live_mode_started_at, Some(250));
    assert_eq!(metrics.replay_completed_at, Some(250));
    assert_eq!(metrics.total_startup_duration_ms, Some(150));
    assert_eq!(metrics.replay_duration_ms, None);
    assert_eq!(coordinator.socket_client_mut().unwrap().mode(), ClientMode::Live);
}

#[test]
fn stream_anomalies_are_found_during_startup() {
    let mut coordinator = StartupCoordinator::new(StartupConfig::cold_start());
    let begin = SocketMessage::BeginBlock { block_number: 5, is_revert: false };
    assert_eq!(coordinator.stream_anomaly(&begin), None);
    assert!(coordinator.buffer_stats().is_none());
    coordinator.run_cold_start(whitelist(), 0).unwrap();
    coordinator.phase_1_connect_socket(Ok(()), 0);
    coordinator.handle_stream_message(begin.clone()).unwrap();
    assert_eq!(
        coordinator.stream_anomaly(&begin),
        Some(FramingAnomaly::BeginInsideBlock { open_block: 5 })
    );
    let stats = coordinator.buffer_stats().unwrap();
    assert_eq!(stats.current_block, Some(5));
    assert_eq!(stats.mode, ClientMode::Buffering { capacity: 100_000 });
}
