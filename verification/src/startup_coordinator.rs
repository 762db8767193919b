//! The startup coordinator: it sequences a cold start (connect in buffering
//! mode, scrape the baseline, replay what was buffered, go live) and the
//! addition of pools while live.
//!
//! The coordinator decides and the caller acts: every step takes what the
//! caller learnt from outside (how a connection attempt went, what the scraper
//! read, the current block, the time) and answers with the next thing to do.

use crate::event_processor::{
    batch_processed,
    collected,
    lemma_batch_keeps_locations,
    processed,
    EventProcessor,
    EventProcessorError,
    EventProcessorStats,
};
use crate::framing::{contents, payloads, residue};
use crate::identifiers::{is_named_by, names_pool, parse_pool_identifier};
use crate::messages::{chrono_group, chrono_sorted, PoolEvent, PoolIdentifier, SocketMessage};
use crate::pool_factory::{
    add_pool_to_registry,
    create_pool,
    lemma_load_keeps_pools,
    lemma_loaded_pool_stands_at_its_tier,
    load_applied,
    load_reported,
    loads,
    RawPoolState,
};
use crate::pools::{determine_tier, same_identifier};
use crate::registry::{Family, PoolArenaRegistry};
use crate::socket_client::{
    after_attempt,
    anomaly_of,
    fresh_client,
    step,
    BufferStats,
    ClientMode,
    ClientState,
    ConnectStep,
    FramingAnomaly,
    Outcome,
    SocketClientError,
    UnixSocketClient,
};
use crate::text::str_equals;
use vstd::prelude::*;
use vstd::string::StringExecFns;

verus! {

/// What can go wrong during startup.
#[derive(Debug, PartialEq, Eq)]
pub enum StartupError {
    SocketClient(String),
    Scraper(String),
    ArenaRegistry(String),
    PoolFactory(String),
    /// A cold start was asked for while live.
    AlreadyLive,
    /// Pools were to be added while not live.
    NotLive,
}

/// The two ways of loading pools.
#[derive(Clone, Copy, Debug, PartialEq, Eq, Structural)]
pub enum StartupMode {
    /// The first start, with the full baseline.
    ColdStart,
    /// Pools added while live.
    Incremental,
}

/// A pool to load: its identifier as text, and its protocol.
#[derive(Debug, PartialEq, Eq)]
pub struct PoolInfo {
    pub id: String,
    pub protocol: String,
}

impl Clone for PoolInfo {
    fn clone(&self) -> (copy: PoolInfo)
        ensures
            copy == *self,
    {
        PoolInfo { id: self.id.clone(), protocol: self.protocol.clone() }
    }
}

impl PoolInfo {
    /// Whether the pool is a constant-product pair, which is quick to scrape.
    pub fn is_v2(&self) -> (v2: bool)
        ensures
            v2 == (self.protocol@ == "uniswap_v2"@),
    {
        str_equals(self.protocol.as_str(), "uniswap_v2")
    }

    /// Whether the pool is a concentrated-liquidity pool, which has ticks to
    /// scrape.
    pub fn is_v3_or_v4(&self) -> (concentrated: bool)
        ensures
            concentrated == (self.protocol@ == "uniswap_v3"@ || self.protocol@ == "uniswap_v4"@),
    {
        str_equals(self.protocol.as_str(), "uniswap_v3") || str_equals(
            self.protocol.as_str(),
            "uniswap_v4",
        )
    }
}

/// How far the startup has come.
#[derive(Clone, Copy, Debug, PartialEq, Eq, Structural)]
pub enum StartupPhase {
    NotStarted,
    ConnectingSocket,
    ScrapingPools { v2_completed: usize, v2_total: usize, v3_v4_completed: usize, v3_v4_total: usize },
    ReplayingEvents { events_completed: usize, events_total: usize },
    Live,
}

/// The place of a phase in the order of a cold start.
pub open spec fn phase_rank(phase: StartupPhase) -> nat {
    match phase {
        StartupPhase::NotStarted => 0,
        StartupPhase::ConnectingSocket => 1,
        StartupPhase::ScrapingPools { .. } => 2,
        StartupPhase::ReplayingEvents { .. } => 3,
        StartupPhase::Live => 4,
    }
}

/// The later of a phase and the phase that a step reaches: no step takes the
/// startup back.
pub open spec fn raised_to(phase: StartupPhase, reached: StartupPhase) -> StartupPhase {
    if phase_rank(phase) <= phase_rank(reached) {
        reached
    } else {
        phase
    }
}

fn rank_of(phase: StartupPhase) -> (rank: u8)
    ensures
        rank == phase_rank(phase),
{
    match phase {
        StartupPhase::NotStarted => 0,
        StartupPhase::ConnectingSocket => 1,
        StartupPhase::ScrapingPools { .. } => 2,
        StartupPhase::ReplayingEvents { .. } => 3,
        StartupPhase::Live => 4,
    }
}

fn raise_to(phase: StartupPhase, reached: StartupPhase) -> (later: StartupPhase)
    ensures
        later == raised_to(phase, reached),
{
    if rank_of(phase) <= rank_of(reached) {
        reached
    } else {
        phase
    }
}

/// The settings of a startup.
#[derive(Debug, PartialEq, Eq)]
pub struct StartupConfig {
    pub socket_path: String,
    /// The most events to buffer while scraping.
    pub buffer_capacity: usize,
    pub v2_scrape_batch_size: usize,
    pub v3_v4_scrape_batch_size: usize,
    pub scraping_concurrency: usize,
    pub parallel_scraping: bool,
}

impl StartupConfig {
    /// The settings for a cold start.
    pub fn cold_start() -> (config: StartupConfig)
        ensures
            config.socket_path@ == "/tmp/reth_exex.sock"@,
            config.buffer_capacity == 100_000,
            config.v2_scrape_batch_size == 500,
            config.v3_v4_scrape_batch_size == 50,
            config.scraping_concurrency == 4,
            config.parallel_scraping,
    {
        StartupConfig {
            socket_path: String::from_str("/tmp/reth_exex.sock"),
            buffer_capacity: 100_000,
            v2_scrape_batch_size: 500,
            v3_v4_scrape_batch_size: 50,
            scraping_concurrency: 4,
            parallel_scraping: true,
        }
    }

    /// The settings for adding pools while live.
    pub fn incremental() -> (config: StartupConfig)
        ensures
            config.socket_path@ == "/tmp/reth_exex.sock"@,
            config.buffer_capacity == 10_000,
            config.v2_scrape_batch_size == 100,
            config.v3_v4_scrape_batch_size == 10,
            config.scraping_concurrency == 2,
            config.parallel_scraping,
    {
        StartupConfig {
            socket_path: String::from_str("/tmp/reth_exex.sock"),
            buffer_capacity: 10_000,
            v2_scrape_batch_size: 100,
            v3_v4_scrape_batch_size: 10,
            scraping_concurrency: 2,
            parallel_scraping: true,
        }
    }
}

/// What a startup measured. Times are milliseconds of the caller's clock.
#[derive(Clone, Copy, Debug, PartialEq, Eq)]
pub struct StartupMetrics {
    pub startup_started_at: Option<u64>,
    pub socket_connected_at: Option<u64>,
    pub scraping_started_at: Option<u64>,
    pub scraping_completed_at: Option<u64>,
    pub replay_started_at: Option<u64>,
    pub replay_completed_at: Option<u64>,
    pub live_mode_started_at: Option<u64>,
    pub v2_pools_scraped: usize,
    pub v3_v4_pools_scraped: usize,
    pub pools_failed: usize,
    pub events_buffered: usize,
    pub events_replayed: usize,
    pub total_startup_duration_ms: Option<u64>,
    pub v2_scraping_duration_ms: Option<u64>,
    pub v3_v4_scraping_duration_ms: Option<u64>,
    pub replay_duration_ms: Option<u64>,
}

/// Nothing measured yet.
pub open spec fn no_metrics() -> StartupMetrics {
    StartupMetrics {
        startup_started_at: None,
        socket_connected_at: None,
        scraping_started_at: None,
        scraping_completed_at: None,
        replay_started_at: None,
        replay_completed_at: None,
        live_mode_started_at: None,
        v2_pools_scraped: 0,
        v3_v4_pools_scraped: 0,
        pools_failed: 0,
        events_buffered: 0,
        events_replayed: 0,
        total_startup_duration_ms: None,
        v2_scraping_duration_ms: None,
        v3_v4_scraping_duration_ms: None,
        replay_duration_ms: None,
    }
}

impl Default for StartupMetrics {
    fn default() -> (metrics: StartupMetrics)
        ensures
            metrics == no_metrics(),
    {
        StartupMetrics {
            startup_started_at: None,
            socket_connected_at: None,
            scraping_started_at: None,
            scraping_completed_at: None,
            replay_started_at: None,
            replay_completed_at: None,
            live_mode_started_at: None,
            v2_pools_scraped: 0,
            v3_v4_pools_scraped: 0,
            pools_failed: 0,
            events_buffered: 0,
            events_replayed: 0,
            total_startup_duration_ms: None,
            v2_scraping_duration_ms: None,
            v3_v4_scraping_duration_ms: None,
            replay_duration_ms: None,
        }
    }
}

/// The pairs among `pools`, in their order.
pub open spec fn pairs_of(pools: Seq<PoolInfo>) -> Seq<PoolInfo> {
    pools.filter(|pool: PoolInfo| pool.protocol@ == "uniswap_v2"@)
}

/// The pools among `pools` that are no pairs, in their order.
pub open spec fn others_of(pools: Seq<PoolInfo>) -> Seq<PoolInfo> {
    pools.filter(|pool: PoolInfo| pool.protocol@ != "uniswap_v2"@)
}

/// Parts the pools into the pairs, which are quick to scrape, and the rest,
/// each part in the order of the list.
pub fn categorize_pools(pools: Vec<PoolInfo>) -> (parts: (Vec<PoolInfo>, Vec<PoolInfo>))
    ensures
        parts.0@ == pairs_of(pools@),
        parts.1@ == others_of(pools@),
{
    let mut v2_pools: Vec<PoolInfo> = Vec::new();
    let mut v3_v4_pools: Vec<PoolInfo> = Vec::new();
    let mut i: usize = 0;
    assert(pools@.subrange(0, 0) =~= Seq::<PoolInfo>::empty());
    while i < pools.len()
        invariant
            i <= pools@.len(),
            v2_pools@ == pairs_of(pools@.subrange(0, i as int)),
            v3_v4_pools@ == others_of(pools@.subrange(0, i as int)),
        decreases pools@.len() - i,
    {
        let pool = pools[i].clone();
        proof {
            let done = pools@.subrange(0, i as int);
            assert(pools@.subrange(0, i + 1) =~= done.push(pools@[i as int]));
            done.lemma_filter_push(
                pools@[i as int],
                |pool: PoolInfo| pool.protocol@ == "uniswap_v2"@,
            );
            done.lemma_filter_push(
                pools@[i as int],
                |pool: PoolInfo| pool.protocol@ != "uniswap_v2"@,
            );
        }
        if pool.is_v2() {
            v2_pools.push(pool);
        } else {
            v3_v4_pools.push(pool);
        }
        i += 1;
    }
    assert(pools@.subrange(0, i as int) =~= pools@);
    (v2_pools, v3_v4_pools)
}

/// Where a load of pools stands: what the coordinator does next, or waits for.
#[derive(Clone, Copy, Debug, PartialEq, Eq, Structural)]
pub enum Stage {
    /// No load is under way.
    Idle,
    /// A cold start waits for the socket to open.
    Connecting,
    /// An addition of pools waits for its reference block.
    AwaitingReference,
    /// The pairs are being scraped.
    ScrapingV2,
    /// A cold start waits for the reference block that is taken after the pairs.
    AwaitingBlockAfterV2,
    /// The concentrated-liquidity pools are being scraped.
    ScrapingV3V4,
    /// A cold start without pairs waits for the reference block that is taken
    /// after the other pools.
    AwaitingBlockAfterV3V4,
    /// The buffered events are to be replayed.
    Replaying,
    /// The client is to be switched to live mode.
    GoingLive,
}

/// What the caller is to do next.
#[derive(Debug, PartialEq, Eq)]
pub enum StartupAction {
    /// Wait `delay_ms`, try to open the socket, and report how it went.
    Connect { delay_ms: u64 },
    /// Scrape this pool and report what was read.
    ScrapePool { identifier: PoolIdentifier, protocol: String },
    /// Ask for the current block number and report it.
    QueryCurrentBlock,
    /// Nothing is needed from outside: let the coordinator go on.
    Continue,
    /// The buffered events were replayed, with these failures: let the
    /// coordinator go on.
    Replayed(ReplayReport),
    /// The load is complete.
    Done,
    /// The load was given up.
    Failed(StartupError),
}

/// What the coordinator holds, as contracts see it.
pub struct CoordinatorState {
    pub config: StartupConfig,
    pub client: Option<ClientState>,
    /// The counts of the event processor that replays buffered events.
    pub stats: EventProcessorStats,
    pub phase: StartupPhase,
    pub mode: StartupMode,
    pub stage: Stage,
    /// The pairs of the load under way, in the order in which they are scraped.
    pub v2_pools: Seq<PoolInfo>,
    /// The other pools of the load under way.
    pub v3_v4_pools: Seq<PoolInfo>,
    /// The place, in the list being scraped, of the pool that is next.
    pub next_pool: usize,
    /// The pool whose scrape was asked for and not yet reported.
    pub awaited: Option<PoolIdentifier>,
    /// When the list being scraped was begun.
    pub stage_started_at: u64,
    /// The identifiers of the pools admitted, each once.
    pub loaded_pools: Seq<PoolIdentifier>,
    /// The block at which the baseline stands.
    pub reference_block: Option<u64>,
    pub metrics: StartupMetrics,
}

/// A count one higher, unless it stands at the largest value already.
pub open spec fn one_more(count: usize) -> usize {
    if count < usize::MAX {
        (count + 1) as usize
    } else {
        count
    }
}

/// The time from `since` to `now`, and zero if the clock went back.
pub open spec fn elapsed(since: u64, now: u64) -> u64 {
    if now >= since {
        (now - since) as u64
    } else {
        0
    }
}

/// The list that is scraped at `stage`.
pub open spec fn scraped_list(s: CoordinatorState) -> Seq<PoolInfo> {
    if s.stage == Stage::ScrapingV2 {
        s.v2_pools
    } else {
        s.v3_v4_pools
    }
}

/// The progress that a cold start shows while it scrapes.
pub open spec fn scraping_progress(s: CoordinatorState) -> StartupPhase {
    if s.stage == Stage::ScrapingV2 {
        StartupPhase::ScrapingPools {
            v2_completed: s.next_pool,
            v2_total: s.v2_pools.len() as usize,
            v3_v4_completed: 0,
            v3_v4_total: s.v3_v4_pools.len() as usize,
        }
    } else {
        StartupPhase::ScrapingPools {
            v2_completed: s.v2_pools.len() as usize,
            v2_total: s.v2_pools.len() as usize,
            v3_v4_completed: s.next_pool,
            v3_v4_total: s.v3_v4_pools.len() as usize,
        }
    }
}

/// The state with the progress of a cold start brought up to date. An
/// addition of pools shows no progress: the phase stays live.
pub open spec fn with_progress(s: CoordinatorState) -> CoordinatorState {
    if s.mode == StartupMode::ColdStart {
        CoordinatorState { phase: raised_to(s.phase, scraping_progress(s)), ..s }
    } else {
        s
    }
}

/// The state once the pool that was next is done with: counted as scraped or
/// as failed, and the one after it next.
pub open spec fn pool_done(s: CoordinatorState, loaded: bool) -> CoordinatorState {
    let metrics = if !loaded {
        StartupMetrics { pools_failed: one_more(s.metrics.pools_failed), ..s.metrics }
    } else if s.stage == Stage::ScrapingV2 {
        StartupMetrics { v2_pools_scraped: one_more(s.metrics.v2_pools_scraped), ..s.metrics }
    } else {
        StartupMetrics { v3_v4_pools_scraped: one_more(s.metrics.v3_v4_pools_scraped), ..s.metrics }
    };
    with_progress(
        CoordinatorState { metrics, next_pool: one_more(s.next_pool), awaited: None, ..s },
    )
}

/// The state when the scraping of the second list begins.
pub open spec fn second_list_begun(s: CoordinatorState, now_ms: u64) -> CoordinatorState {
    CoordinatorState {
        stage: Stage::ScrapingV3V4,
        next_pool: 0,
        awaited: None,
        stage_started_at: now_ms,
        ..s
    }
}

/// The state when all scraping is over and the replay is due. A cold start
/// notes the time and the number of events buffered.
pub open spec fn scraping_over(s: CoordinatorState, now_ms: u64) -> CoordinatorState {
    let metrics = if s.mode == StartupMode::ColdStart {
        StartupMetrics {
            scraping_completed_at: Some(now_ms),
            events_buffered: match s.client {
                Some(client) => client.buffer.len() as usize,
                None => s.metrics.events_buffered,
            },
            ..s.metrics
        }
    } else {
        s.metrics
    };
    CoordinatorState { stage: Stage::Replaying, awaited: None, metrics, ..s }
}

/// The state after a step of scraping that needs nothing from outside, where
/// the list being scraped is at its end. After the pairs a cold start notes
/// how long they took and asks for the reference block; after the other pools
/// it does so only if there were no pairs. The time a list took is noted only
/// if the list was not empty, and only by a cold start.
pub open spec fn list_closed(s: CoordinatorState, now_ms: u64) -> CoordinatorState {
    let cold = s.mode == StartupMode::ColdStart;
    if s.stage == Stage::ScrapingV2 {
        if s.v2_pools.len() > 0 && cold {
            CoordinatorState {
                stage: Stage::AwaitingBlockAfterV2,
                metrics: StartupMetrics {
                    v2_scraping_duration_ms: Some(elapsed(s.stage_started_at, now_ms)),
                    ..s.metrics
                },
                ..s
            }
        } else {
            second_list_begun(s, now_ms)
        }
    } else {
        if s.v3_v4_pools.len() > 0 && cold {
            let timed = CoordinatorState {
                metrics: StartupMetrics {
                    v3_v4_scraping_duration_ms: Some(elapsed(s.stage_started_at, now_ms)),
                    ..s.metrics
                },
                ..s
            };
            if s.reference_block is None {
                CoordinatorState { stage: Stage::AwaitingBlockAfterV3V4, ..timed }
            } else {
                scraping_over(timed, now_ms)
            }
        } else {
            scraping_over(s, now_ms)
        }
    }
}

/// The state after the current block was reported. The block becomes the
/// reference block where one was waited for, and the load goes on: with the
/// pairs for an addition of pools, with the other pools after the pairs, with
/// the replay after the other pools. A block that was not waited for changes
/// nothing.
pub open spec fn block_reported(s: CoordinatorState, block: u64, now_ms: u64) -> CoordinatorState {
    let noted = CoordinatorState { reference_block: Some(block), ..s };
    match s.stage {
        Stage::AwaitingReference => CoordinatorState {
            stage: Stage::ScrapingV2,
            next_pool: 0,
            awaited: None,
            stage_started_at: now_ms,
            ..noted
        },
        Stage::AwaitingBlockAfterV2 => second_list_begun(noted, now_ms),
        Stage::AwaitingBlockAfterV3V4 => scraping_over(noted, now_ms),
        _ => s,
    }
}

/// The state after the switch to live mode. A cold start becomes live and
/// notes when the replay ended and the socket went live, and how long the
/// replay and the whole start took; an addition of pools only switches the
/// client back.
pub open spec fn gone_live(s: CoordinatorState, now_ms: u64) -> CoordinatorState {
    let client = match s.client {
        Some(client) => Some(ClientState { mode: ClientMode::Live, ..client }),
        None => None,
    };
    if s.mode == StartupMode::ColdStart {
        CoordinatorState {
            client,
            stage: Stage::Idle,
            phase: StartupPhase::Live,
            awaited: None,
            metrics: StartupMetrics {
                replay_completed_at: Some(now_ms),
                replay_duration_ms: match s.metrics.replay_started_at {
                    Some(started) => Some(elapsed(started, now_ms)),
                    None => s.metrics.replay_duration_ms,
                },
                live_mode_started_at: Some(now_ms),
                total_startup_duration_ms: match s.metrics.startup_started_at {
                    Some(started) => Some(elapsed(started, now_ms)),
                    None => s.metrics.total_startup_duration_ms,
                },
                ..s.metrics
            },
            ..s
        }
    } else {
        CoordinatorState { client, stage: Stage::Idle, awaited: None, ..s }
    }
}

/// The list with `identifier` in it: added at the end unless it is there.
pub open spec fn with_loaded(loaded: Seq<PoolIdentifier>, identifier: PoolIdentifier) -> Seq<
    PoolIdentifier,
> {
    if loaded.contains(identifier) {
        loaded
    } else {
        loaded.push(identifier)
    }
}

/// Sequences the loading of pools.
pub struct StartupCoordinator {
    config: StartupConfig,
    socket_client: Option<UnixSocketClient>,
    processor: EventProcessor,
    phase: StartupPhase,
    mode: StartupMode,
    stage: Stage,
    v2_pools: Vec<PoolInfo>,
    v3_v4_pools: Vec<PoolInfo>,
    next_pool: usize,
    awaited: Option<PoolIdentifier>,
    stage_started_at: u64,
    loaded_pools: Vec<PoolIdentifier>,
    scrape_reference_block: Option<u64>,
    metrics: StartupMetrics,
}

impl View for StartupCoordinator {
    type V = CoordinatorState;

    closed spec fn view(&self) -> CoordinatorState {
        CoordinatorState {
            config: self.config,
            client: match self.socket_client {
                Some(client) => Some(client@),
                None => None,
            },
            stats: self.processor.stats,
            phase: self.phase,
            mode: self.mode,
            stage: self.stage,
            v2_pools: self.v2_pools@,
            v3_v4_pools: self.v3_v4_pools@,
            next_pool: self.next_pool,
            awaited: self.awaited,
            stage_started_at: self.stage_started_at,
            loaded_pools: self.loaded_pools@,
            reference_block: self.scrape_reference_block,
            metrics: self.metrics,
        }
    }
}

fn bump_count(count: usize) -> (next: usize)
    ensures
        next == one_more(count),
{
    count.saturating_add(1)
}

fn time_between(since: u64, now: u64) -> (span: u64)
    ensures
        span == elapsed(since, now),
{
    now.saturating_sub(since)
}

impl StartupCoordinator {
    /// A coordinator that has not started: no client, no pool loaded, nothing
    /// measured.
    pub fn new(config: StartupConfig) -> (coordinator: StartupCoordinator)
        ensures
            coordinator@ == (CoordinatorState {
                config,
                client: None,
                stats: crate::event_processor::no_events(),
                phase: StartupPhase::NotStarted,
                mode: StartupMode::ColdStart,
                stage: Stage::Idle,
                v2_pools: Seq::empty(),
                v3_v4_pools: Seq::empty(),
                next_pool: 0,
                awaited: None,
                stage_started_at: 0,
                loaded_pools: Seq::empty(),
                reference_block: None,
                metrics: no_metrics(),
            }),
    {
        StartupCoordinator {
            config,
            socket_client: None,
            processor: EventProcessor::new(),
            phase: StartupPhase::NotStarted,
            mode: StartupMode::ColdStart,
            stage: Stage::Idle,
            v2_pools: Vec::new(),
            v3_v4_pools: Vec::new(),
            next_pool: 0,
            awaited: None,
            stage_started_at: 0,
            loaded_pools: Vec::new(),
            scrape_reference_block: None,
            metrics: StartupMetrics::default(),
        }
    }

    /// The phase.
    pub fn phase(&self) -> (phase: &StartupPhase)
        ensures
            *phase == self@.phase,
    {
        &self.phase
    }

    /// What was measured.
    pub fn metrics(&self) -> (metrics: &StartupMetrics)
        ensures
            *metrics == self@.metrics,
    {
        &self.metrics
    }

    /// Whether the coordinator is live.
    pub fn is_live(&self) -> (live: bool)
        ensures
            live == (self@.phase == StartupPhase::Live),
    {
        self.phase == StartupPhase::Live
    }

    /// What the load under way does next or waits for.
    pub fn stage(&self) -> (stage: Stage)
        ensures
            stage == self@.stage,
    {
        self.stage
    }

    /// The block at which the baseline stands.
    pub fn reference_block(&self) -> (block: Option<u64>)
        ensures
            block == self@.reference_block,
    {
        self.scrape_reference_block
    }

    /// The counts of the events replayed.
    pub fn replay_stats(&self) -> (stats: &EventProcessorStats)
        ensures
            *stats == self@.stats,
    {
        self.processor.stats()
    }

    /// A snapshot of the client's buffer and of the block under way, if there
    /// is a client.
    pub fn buffer_stats(&self) -> (stats: Option<BufferStats>)
        ensures
            stats is Some == self@.client is Some,
            stats matches Some(snapshot) ==> {
                let client = self@.client.unwrap();
                &&& snapshot.mode == client.mode
                &&& snapshot.buffered_count == client.buffer.len()
                &&& snapshot.buffered_block_range == match (
                    client.earliest_block,
                    client.latest_block,
                ) {
                    (Some(earliest), Some(latest)) => Some((earliest, latest)),
                    _ => None,
                }
                &&& snapshot.current_block == client.current_block
                &&& snapshot.pending_updates_count == client.pending.len()
            },
    {
        match &self.socket_client {
            Some(client) => Some(client.buffer_stats()),
            None => None,
        }
    }

    /// What is odd about `message`, as the client stands, without being an
    /// error.
    pub fn stream_anomaly(&self, message: &SocketMessage) -> (found: Option<FramingAnomaly>)
        ensures
            found == match self@.client {
                Some(client) => anomaly_of(client, *message),
                None => None,
            },
    {
        match &self.socket_client {
            Some(client) => client.framing_anomaly(message),
            None => None,
        }
    }

    /// Whether the pool known by `identifier` was admitted.
    pub fn is_loaded(&self, identifier: &PoolIdentifier) -> (loaded: bool)
        ensures
            loaded == self@.loaded_pools.contains(*identifier),
    {
        let mut i: usize = 0;
        while i < self.loaded_pools.len()
            invariant
                i <= self.loaded_pools@.len(),
                forall|k: int| 0 <= k < i ==> self.loaded_pools@[k] != *identifier,
            decreases self.loaded_pools@.len() - i,
        {
            if same_identifier(&self.loaded_pools[i], identifier) {
                return true;
            }
            i += 1;
        }
        false
    }

    /// The client, for the caller to read events with, once the coordinator
    /// is live.
    pub fn socket_client_mut(&mut self) -> (client: Option<&mut UnixSocketClient>)
        ensures
            old(self)@.phase != StartupPhase::Live ==> client is None && *final(self) == *old(self),
            old(self)@.phase == StartupPhase::Live ==> (client is Some) == (old(self)@.client
                is Some),
            client matches Some(handle) ==> handle@ == old(self)@.client.unwrap() && final(self)@
                == (CoordinatorState { client: Some(final(handle)@), ..old(self)@ }),
            client is None ==> *final(self) == *old(self),
    {
        if self.phase == StartupPhase::Live {
            self.socket_client.as_mut()
        } else {
            None
        }
    }
}

/// The state when a cold start has begun: the pools parted into the two
/// lists, a new client in buffering mode with the capacity of the settings,
/// no reference block yet, and the socket to be opened.
pub open spec fn cold_start_begun(
    s: CoordinatorState,
    pool_whitelist: Seq<PoolInfo>,
    now_ms: u64,
) -> CoordinatorState {
    CoordinatorState {
        client: Some(
            fresh_client(
                s.config.socket_path@,
                ClientMode::Buffering { capacity: s.config.buffer_capacity },
            ),
        ),
        phase: raised_to(s.phase, StartupPhase::ConnectingSocket),
        mode: StartupMode::ColdStart,
        stage: Stage::Connecting,
        v2_pools: pairs_of(pool_whitelist),
        v3_v4_pools: others_of(pool_whitelist),
        next_pool: 0,
        awaited: None,
        reference_block: None,
        metrics: StartupMetrics { startup_started_at: Some(now_ms), ..s.metrics },
        ..s
    }
}

/// The state when an addition of pools has begun: the pools parted into the
/// two lists, the client in buffering mode with the capacity of the settings,
/// and the reference block to be asked for.
pub open spec fn addition_begun(s: CoordinatorState, new_pools: Seq<PoolInfo>) -> CoordinatorState {
    CoordinatorState {
        client: match s.client {
            Some(client) => Some(
                ClientState {
                    mode: ClientMode::Buffering { capacity: s.config.buffer_capacity },
                    ..client
                },
            ),
            None => None,
        },
        mode: StartupMode::Incremental,
        stage: Stage::AwaitingReference,
        v2_pools: pairs_of(new_pools),
        v3_v4_pools: others_of(new_pools),
        next_pool: 0,
        awaited: None,
        ..s
    }
}

/// The state after a connection attempt was reported to a cold start that
/// waits for the socket. A success opens the scraping of the pairs; the
/// failure that uses up the attempts ends the cold start; any other failure
/// leaves it waiting.
pub open spec fn connection_reported(s: CoordinatorState, succeeded: bool, now_ms: u64) -> CoordinatorState
    recommends
        s.client is Some,
{
    let client = Some(after_attempt(s.client.unwrap(), succeeded));
    if succeeded {
        let begun = CoordinatorState {
            client,
            stage: Stage::ScrapingV2,
            next_pool: 0,
            awaited: None,
            stage_started_at: now_ms,
            metrics: StartupMetrics {
                socket_connected_at: Some(now_ms),
                scraping_started_at: Some(now_ms),
                ..s.metrics
            },
            ..s
        };
        CoordinatorState { phase: raised_to(s.phase, scraping_progress(begun)), ..begun }
    } else if s.client.unwrap().failed_attempts + 1 >= s.client.unwrap().max_attempts {
        CoordinatorState { client, stage: Stage::Idle, ..s }
    } else {
        CoordinatorState { client, ..s }
    }
}

/// Whether a load is scraping one of its two lists.
pub open spec fn is_scraping(s: CoordinatorState) -> bool {
    s.stage == Stage::ScrapingV2 || s.stage == Stage::ScrapingV3V4
}

/// Whether the scrape of a pool was asked for and is waited for.
pub open spec fn awaits_pool(s: CoordinatorState) -> bool {
    is_scraping(s) && s.awaited is Some && s.next_pool < scraped_list(s).len()
}

/// What a step of scraping comes to. It changes nothing where the load is not
/// scraping. Where a scrape is waited for, it asks for that scrape again.
/// Where a pool is next, it reads the pool's identifier: it asks for the scrape
/// if the text names a pool of the protocol, and counts the pool as failed and
/// passes on to the next if not. At the end of a list it closes the list.
pub open spec fn scrape_step(
    s: CoordinatorState,
    now_ms: u64,
    after: CoordinatorState,
    action: StartupAction,
) -> bool {
    if !is_scraping(s) {
        after == s && action == StartupAction::Continue
    } else if s.next_pool < scraped_list(s).len() {
        let pool = scraped_list(s)[s.next_pool as int];
        if s.awaited is Some {
            after == s && (action matches StartupAction::ScrapePool { identifier, protocol }
                && identifier == s.awaited.unwrap() && protocol@ == pool.protocol@)
        } else if names_pool(vstd::utf8::encode_utf8(pool.id@), pool.protocol@) {
            action matches StartupAction::ScrapePool { identifier, protocol } && is_named_by(
                identifier,
                vstd::utf8::encode_utf8(pool.id@),
                pool.protocol@,
            ) && protocol@ == pool.protocol@ && after == (CoordinatorState {
                awaited: Some(identifier),
                ..s
            })
        } else {
            after == pool_done(s, false) && action == StartupAction::Continue
        }
    } else {
        after == list_closed(s, now_ms) && action == (if after.stage
            == Stage::AwaitingBlockAfterV2 || after.stage == Stage::AwaitingBlockAfterV3V4 {
            StartupAction::QueryCurrentBlock
        } else {
            StartupAction::Continue
        })
    }
}

/// The events of `events` that came after block `reference`, in their order.
pub open spec fn after_reference(events: Seq<PoolEvent>, reference: u64) -> Seq<PoolEvent> {
    events.filter(|event: PoolEvent| event.block_number > reference)
}

/// A count raised by `by`, as far as a `usize` goes.
pub open spec fn raised_by(count: usize, by: int) -> usize {
    if count + by <= usize::MAX {
        (count + by) as usize
    } else {
        usize::MAX
    }
}

/// The block after which buffered events are replayed: the reference block,
/// and zero where there is none.
pub open spec fn replay_cut(s: CoordinatorState) -> u64 {
    match s.reference_block {
        Some(block) => block,
        None => 0,
    }
}

/// What a replay hands back: the events that were buffered, in chronological
/// order, and the errors of those that were replayed and failed.
#[derive(Debug, PartialEq, Eq)]
pub struct ReplayReport {
    pub buffered: Vec<PoolEvent>,
    pub errors: Vec<EventProcessorError>,
}

/// The state after a replay that found a client: the buffer is taken; a cold
/// start notes when the replay began, how many events were buffered and how
/// many were replayed without error, and shows the replay as its phase, with
/// the progress in steps of a thousand.
pub open spec fn replay_noted(
    s: CoordinatorState,
    stats: EventProcessorStats,
    buffered: Seq<PoolEvent>,
    failures: int,
    now_ms: u64,
) -> CoordinatorState
    recommends
        s.client is Some,
{
    let client = Some(
        ClientState {
            buffer: Seq::empty(),
            earliest_block: None,
            latest_block: None,
            ..s.client.unwrap()
        },
    );
    let replayed = after_reference(buffered, replay_cut(s));
    if s.mode == StartupMode::ColdStart {
        CoordinatorState {
            client,
            stats,
            phase: raised_to(
                s.phase,
                StartupPhase::ReplayingEvents {
                    events_completed: (replayed.len() - replayed.len() % 1000) as usize,
                    events_total: replayed.len() as usize,
                },
            ),
            metrics: StartupMetrics {
                replay_started_at: Some(now_ms),
                events_buffered: buffered.len() as usize,
                events_replayed: raised_by(s.metrics.events_replayed, replayed.len() - failures),
                ..s.metrics
            },
            ..s
        }
    } else {
        CoordinatorState { client, stats, ..s }
    }
}

/// What a replay comes to. Without a client it fails, and only a cold start
/// notes when it began. With one, the buffered events are taken in
/// chronological order, those that came after the reference block are
/// processed in that order, each on what the one before it left and whether
/// that one failed or not, and those at or before the reference block are
/// left out.
pub open spec fn replay_done(
    s: CoordinatorState,
    before: PoolArenaRegistry,
    now_ms: u64,
    after_state: CoordinatorState,
    after: PoolArenaRegistry,
    result: Result<ReplayReport, StartupError>,
) -> bool {
    match s.client {
        None => (result matches Err(StartupError::SocketClient(text)) && text@
            == "No socket client"@) && after == before && after_state == (if s.mode
            == StartupMode::ColdStart {
            CoordinatorState {
                metrics: StartupMetrics { replay_started_at: Some(now_ms), ..s.metrics },
                ..s
            }
        } else {
            s
        }),
        Some(client) => result matches Ok(report) && {
            &&& chrono_sorted(report.buffered@)
            &&& report.buffered@.to_multiset() == client.buffer.to_multiset()
            &&& forall|at: PoolEvent| #[trigger]
                chrono_group(report.buffered@, at) == chrono_group(client.buffer, at)
            &&& batch_processed(
                s.stats,
                before,
                after_reference(report.buffered@, replay_cut(s)),
                after_state.stats,
                after,
                report.errors@,
            )
            &&& after_state == replay_noted(
                s,
                after_state.stats,
                report.buffered@,
                report.errors@.len() as int,
                now_ms,
            )
        },
    }
}

impl StartupCoordinator {
    /// Begins a cold start with the pools of `pool_whitelist`. Refused with
    /// `AlreadyLive` once the coordinator is live; otherwise the caller is to
    /// open the socket.
    pub fn run_cold_start(&mut self, pool_whitelist: Vec<PoolInfo>, now_ms: u64) -> (result: Result<
        StartupAction,
        StartupError,
    >)
        ensures
            old(self)@.phase == StartupPhase::Live ==> result == Err::<StartupAction, StartupError>(
                StartupError::AlreadyLive,
            ) && final(self)@ == old(self)@,
            old(self)@.phase != StartupPhase::Live ==> result == Ok::<StartupAction, StartupError>(
                StartupAction::Connect { delay_ms: 0 },
            ) && final(self)@ == cold_start_begun(old(self)@, pool_whitelist@, now_ms),
    {
        if self.phase == StartupPhase::Live {
            return Err(StartupError::AlreadyLive);
        }
        self.metrics.startup_started_at = Some(now_ms);
        let (v2_pools, v3_v4_pools) = categorize_pools(pool_whitelist);
        self.v2_pools = v2_pools;
        self.v3_v4_pools = v3_v4_pools;
        self.mode = StartupMode::ColdStart;
        self.next_pool = 0;
        self.awaited = None;
        self.scrape_reference_block = None;
        self.phase = raise_to(self.phase, StartupPhase::ConnectingSocket);
        self.socket_client = Some(
            UnixSocketClient::new(
                self.config.socket_path.as_str(),
                ClientMode::Buffering { capacity: self.config.buffer_capacity },
            ),
        );
        self.stage = Stage::Connecting;
        Ok(StartupAction::Connect { delay_ms: 0 })
    }

    /// Begins the addition of `new_pools` while live. Refused with `NotLive`
    /// unless the coordinator is live; otherwise the client buffers again and
    /// the caller is to report the current block, which becomes the reference
    /// block.
    pub fn add_pools_incremental(&mut self, new_pools: Vec<PoolInfo>) -> (result: Result<
        StartupAction,
        StartupError,
    >)
        ensures
            old(self)@.phase != StartupPhase::Live ==> result == Err::<StartupAction, StartupError>(
                StartupError::NotLive,
            ) && final(self)@ == old(self)@,
            old(self)@.phase == StartupPhase::Live ==> result == Ok::<StartupAction, StartupError>(
                StartupAction::QueryCurrentBlock,
            ) && final(self)@ == addition_begun(old(self)@, new_pools@),
    {
        if self.phase != StartupPhase::Live {
            return Err(StartupError::NotLive);
        }
        let (v2_pools, v3_v4_pools) = categorize_pools(new_pools);
        self.v2_pools = v2_pools;
        self.v3_v4_pools = v3_v4_pools;
        self.mode = StartupMode::Incremental;
        self.next_pool = 0;
        self.awaited = None;
        let capacity = self.config.buffer_capacity;
        match self.socket_client.as_mut() {
            Some(client) => {
                client.set_mode(ClientMode::Buffering { capacity });
            },
            None => {},
        }
        self.stage = Stage::AwaitingReference;
        Ok(StartupAction::QueryCurrentBlock)
    }

    /// Takes in how an attempt to open the socket went. While a cold start
    /// waits for the socket: a success opens the scraping, a failure asks for
    /// another attempt after a pause, and the failure that uses up the
    /// attempts ends the cold start with a `SocketClient` error. At any other
    /// time nothing changes.
    pub fn phase_1_connect_socket(&mut self, attempt: Result<(), String>, now_ms: u64) -> (action:
        StartupAction)
        ensures
            old(self)@.stage != Stage::Connecting || old(self)@.client is None ==> final(self)@
                == old(self)@ && action == StartupAction::Continue,
            old(self)@.stage == Stage::Connecting && old(self)@.client is Some ==> {
                let client = old(self)@.client.unwrap();
                &&& final(self)@ == connection_reported(old(self)@, attempt is Ok, now_ms)
                &&& attempt is Ok ==> action == StartupAction::Continue
                &&& attempt is Err && client.failed_attempts + 1 >= client.max_attempts ==> (
                action matches StartupAction::Failed(StartupError::SocketClient(_)))
                &&& attempt is Err && client.failed_attempts + 1 < client.max_attempts ==> action
                    == (StartupAction::Connect { delay_ms: client.retry_delay_ms })
            },
    {
        if self.stage != Stage::Connecting {
            return StartupAction::Continue;
        }
        let next = match self.socket_client.as_mut() {
            Some(client) => client.connect(attempt),
            None => {
                return StartupAction::Continue;
            },
        };
        match next {
            ConnectStep::Connected => {
                self.metrics.socket_connected_at = Some(now_ms);
                self.metrics.scraping_started_at = Some(now_ms);
                self.stage = Stage::ScrapingV2;
                self.next_pool = 0;
                self.awaited = None;
                self.stage_started_at = now_ms;
                self.phase = raise_to(
                    self.phase,
                    StartupPhase::ScrapingPools {
                        v2_completed: 0,
                        v2_total: self.v2_pools.len(),
                        v3_v4_completed: 0,
                        v3_v4_total: self.v3_v4_pools.len(),
                    },
                );
                StartupAction::Continue
            },
            ConnectStep::RetryAfter { delay_ms } => StartupAction::Connect { delay_ms },
            ConnectStep::GiveUp(error) => {
                self.stage = Stage::Idle;
                StartupAction::Failed(StartupError::SocketClient(error.describe()))
            },
        }
    }

    fn show_progress(&mut self)
        requires
            is_scraping(old(self)@),
        ensures
            final(self)@ == with_progress(old(self)@),
    {
        if self.mode == StartupMode::ColdStart {
            let progress = if self.stage == Stage::ScrapingV2 {
                StartupPhase::ScrapingPools {
                    v2_completed: self.next_pool,
                    v2_total: self.v2_pools.len(),
                    v3_v4_completed: 0,
                    v3_v4_total: self.v3_v4_pools.len(),
                }
            } else {
                StartupPhase::ScrapingPools {
                    v2_completed: self.v2_pools.len(),
                    v2_total: self.v2_pools.len(),
                    v3_v4_completed: self.next_pool,
                    v3_v4_total: self.v3_v4_pools.len(),
                }
            };
            self.phase = raise_to(self.phase, progress);
        }
    }

    fn finish_pool(&mut self, loaded: bool)
        requires
            is_scraping(old(self)@),
        ensures
            final(self)@ == pool_done(old(self)@, loaded),
    {
        if !loaded {
            self.metrics.pools_failed = bump_count(self.metrics.pools_failed);
        } else if self.stage == Stage::ScrapingV2 {
            self.metrics.v2_pools_scraped = bump_count(self.metrics.v2_pools_scraped);
        } else {
            self.metrics.v3_v4_pools_scraped = bump_count(self.metrics.v3_v4_pools_scraped);
        }
        self.next_pool = bump_count(self.next_pool);
        self.awaited = None;
        self.show_progress();
    }

    fn begin_second_list(&mut self, now_ms: u64)
        ensures
            final(self)@ == second_list_begun(old(self)@, now_ms),
    {
        self.stage = Stage::ScrapingV3V4;
        self.next_pool = 0;
        self.awaited = None;
        self.stage_started_at = now_ms;
    }

    fn finish_scraping(&mut self, now_ms: u64)
        ensures
            final(self)@ == scraping_over(old(self)@, now_ms),
    {
        if self.mode == StartupMode::ColdStart {
            self.metrics.scraping_completed_at = Some(now_ms);
            match &self.socket_client {
                Some(client) => {
                    self.metrics.events_buffered = client.buffered_count();
                },
                None => {},
            }
        }
        self.stage = Stage::Replaying;
        self.awaited = None;
    }

    fn close_list(&mut self, now_ms: u64)
        requires
            is_scraping(old(self)@),
        ensures
            final(self)@ == list_closed(old(self)@, now_ms),
    {
        let cold = self.mode == StartupMode::ColdStart;
        if self.stage == Stage::ScrapingV2 {
            if self.v2_pools.len() > 0 && cold {
                self.metrics.v2_scraping_duration_ms = Some(
                    time_between(self.stage_started_at, now_ms),
                );
                self.stage = Stage::AwaitingBlockAfterV2;
            } else {
                self.begin_second_list(now_ms);
            }
        } else {
            if self.v3_v4_pools.len() > 0 && cold {
                self.metrics.v3_v4_scraping_duration_ms = Some(
                    time_between(self.stage_started_at, now_ms),
                );
                if self.scrape_reference_block.is_none() {
                    self.stage = Stage::AwaitingBlockAfterV3V4;
                } else {
                    self.finish_scraping(now_ms);
                }
            } else {
                self.finish_scraping(now_ms);
            }
        }
    }

    /// One step of scraping: the pairs first, then the other pools, each list
    /// in its order. It asks for the scrape of the pool that is next, passes
    /// over a pool whose identifier cannot be read, and closes a list at its
    /// end.
    pub fn phase_2_scrape_pools(&mut self, now_ms: u64) -> (action: StartupAction)
        ensures
            scrape_step(old(self)@, now_ms, final(self)@, action),
    {
        if self.stage != Stage::ScrapingV2 && self.stage != Stage::ScrapingV3V4 {
            return StartupAction::Continue;
        }
        let list = if self.stage == Stage::ScrapingV2 {
            &self.v2_pools
        } else {
            &self.v3_v4_pools
        };
        if self.next_pool < list.len() {
            let pool = &list[self.next_pool];
            let protocol = pool.protocol.clone();
            match self.awaited {
                Some(identifier) => StartupAction::ScrapePool { identifier, protocol },
                None => match parse_pool_identifier(pool.id.as_str(), pool.protocol.as_str()) {
                    Ok(identifier) => {
                        self.awaited = Some(identifier);
                        StartupAction::ScrapePool { identifier, protocol }
                    },
                    Err(_) => {
                        self.finish_pool(false);
                        StartupAction::Continue
                    },
                },
            }
        } else {
            self.close_list(now_ms);
            if self.stage == Stage::AwaitingBlockAfterV2 || self.stage
                == Stage::AwaitingBlockAfterV3V4 {
                StartupAction::QueryCurrentBlock
            } else {
                StartupAction::Continue
            }
        }
    }

    /// Loads one pool from what was scraped: the tier is that which the
    /// snapshot's ticks and bitmap words call for, the pool is made for that
    /// tier and registered, and its identifier is noted as loaded.
    pub fn scrape_and_add_pool(
        &mut self,
        registry: &mut PoolArenaRegistry,
        identifier: PoolIdentifier,
        protocol: &str,
        scraped: Result<RawPoolState, String>,
    ) -> (result: Result<(), StartupError>)
        requires
            old(registry).wf(),
        ensures
            final(registry).wf(),
            load_applied(old(registry), final(registry), identifier, protocol@, scraped),
            load_reported(old(registry), identifier, protocol@, scraped, result),
            result is Ok == loads(old(registry), identifier, protocol@, scraped),
            final(self)@ == (CoordinatorState {
                loaded_pools: if result is Ok {
                    with_loaded(old(self)@.loaded_pools, identifier)
                } else {
                    old(self)@.loaded_pools
                },
                ..old(self)@
            }),
            all_held(old(registry), old(self)@.loaded_pools) ==> all_held(
                final(registry),
                final(self)@.loaded_pools,
            ),
    {
        proof {
            if all_held(old(registry), old(self)@.loaded_pools) {
                assert(all_held(&*registry, self@.loaded_pools));
            }
        }
        let raw_state = match scraped {
            Ok(raw_state) => raw_state,
            Err(cause) => {
                return Err(StartupError::Scraper(cause));
            },
        };
        let tier = determine_tier(raw_state.ticks.len(), raw_state.tick_bitmaps.len());
        let pool_result = match create_pool(identifier, protocol, raw_state, tier) {
            Ok(pool_result) => pool_result,
            Err(error) => {
                return Err(error);
            },
        };
        match add_pool_to_registry(registry, pool_result) {
            Ok(_) => {},
            Err(error) => {
                return Err(error);
            },
        }
        if !self.is_loaded(&identifier) {
            self.loaded_pools.push(identifier);
        }
        proof {
            if all_held(old(registry), old(self)@.loaded_pools) {
                lemma_loading_keeps_loaded_pools_held(
                    old(registry),
                    &*registry,
                    old(self)@.loaded_pools,
                    identifier,
                    protocol@,
                    scraped,
                );
            }
        }
        Ok(())
    }

    /// Takes in what the scraper read of the pool that was asked for. The
    /// pool is loaded and counted as scraped, or counted as failed, and the
    /// one after it is next. Where no scrape is waited for nothing changes.
    pub fn pool_scraped(
        &mut self,
        registry: &mut PoolArenaRegistry,
        scraped: Result<RawPoolState, String>,
    ) -> (action: StartupAction)
        requires
            old(registry).wf(),
        ensures
            final(registry).wf(),
            action == StartupAction::Continue,
            !awaits_pool(old(self)@) ==> final(self)@ == old(self)@ && *final(registry) == *old(
                registry,
            ),
            awaits_pool(old(self)@) ==> {
                let identifier = old(self)@.awaited.unwrap();
                let protocol = scraped_list(old(self)@)[old(self)@.next_pool as int].protocol@;
                let loaded = loads(old(registry), identifier, protocol, scraped);
                &&& load_applied(old(registry), final(registry), identifier, protocol, scraped)
                &&& final(self)@ == pool_done(
                    CoordinatorState {
                        loaded_pools: if loaded {
                            with_loaded(old(self)@.loaded_pools, identifier)
                        } else {
                            old(self)@.loaded_pools
                        },
                        ..old(self)@
                    },
                    loaded,
                )
            },
            all_held(old(registry), old(self)@.loaded_pools) ==> all_held(
                final(registry),
                final(self)@.loaded_pools,
            ),
    {
        if self.stage != Stage::ScrapingV2 && self.stage != Stage::ScrapingV3V4 {
            return StartupAction::Continue;
        }
        let identifier = match self.awaited {
            Some(identifier) => identifier,
            None => {
                return StartupAction::Continue;
            },
        };
        let list = if self.stage == Stage::ScrapingV2 {
            &self.v2_pools
        } else {
            &self.v3_v4_pools
        };
        if self.next_pool >= list.len() {
            return StartupAction::Continue;
        }
        let protocol = list[self.next_pool].protocol.clone();
        let result = self.scrape_and_add_pool(registry, identifier, protocol.as_str(), scraped);
        self.finish_pool(result.is_ok());
        StartupAction::Continue
    }

    /// Takes in the current block number. Where the load waits for it, it
    /// becomes the reference block and the load goes on; at any other time
    /// nothing changes.
    pub fn current_block_reported(&mut self, block: u64, now_ms: u64) -> (action: StartupAction)
        ensures
            final(self)@ == block_reported(old(self)@, block, now_ms),
            action == StartupAction::Continue,
    {
        match self.stage {
            Stage::AwaitingReference => {
                self.scrape_reference_block = Some(block);
                self.stage = Stage::ScrapingV2;
                self.next_pool = 0;
                self.awaited = None;
                self.stage_started_at = now_ms;
            },
            Stage::AwaitingBlockAfterV2 => {
                self.scrape_reference_block = Some(block);
                self.begin_second_list(now_ms);
            },
            Stage::AwaitingBlockAfterV3V4 => {
                self.scrape_reference_block = Some(block);
                self.finish_scraping(now_ms);
            },
            _ => {},
        }
        StartupAction::Continue
    }

    /// Applies one event to the registry with the coordinator's event
    /// processor.
    pub fn apply_event(&mut self, registry: &mut PoolArenaRegistry, event: &PoolEvent) -> (result:
        Result<(), EventProcessorError>)
        requires
            old(registry).wf(),
        ensures
            final(registry).wf(),
            processed(
                old(self)@.stats,
                old(registry),
                *event,
                final(self)@.stats,
                final(registry),
                result,
            ),
            final(self)@ == (CoordinatorState { stats: final(self)@.stats, ..old(self)@ }),
            all_held(old(registry), old(self)@.loaded_pools) ==> all_held(
                final(registry),
                final(self)@.loaded_pools,
            ),
    {
        let result = self.processor.process_event(registry, event);
        proof {
            crate::event_processor::lemma_event_keeps_locations(
                old(registry),
                &*registry,
                *event,
                crate::event_processor::route_of(*event),
                result,
            );
            if all_held(old(registry), old(self)@.loaded_pools) {
                assert forall|i: int| 0 <= i < self@.loaded_pools.len() implies holds_pool(
                    &*registry,
                    #[trigger] self@.loaded_pools[i],
                ) by {
                    assert(holds_pool(old(registry), old(self)@.loaded_pools[i]));
                }
            }
        }
        result
    }

    /// Replays the buffered events: takes them out of the client in
    /// chronological order, leaves out those at or before the reference block,
    /// and applies the rest in order, going on after one that fails.
    pub fn phase_3_replay_events(&mut self, registry: &mut PoolArenaRegistry, now_ms: u64) -> (result:
        Result<ReplayReport, StartupError>)
        requires
            old(registry).wf(),
        ensures
            final(registry).wf(),
            replay_done(
                old(self)@,
                *old(registry),
                now_ms,
                final(self)@,
                *final(registry),
                result,
            ),
            all_held(old(registry), old(self)@.loaded_pools) ==> all_held(
                final(registry),
                final(self)@.loaded_pools,
            ),
    {
        let cold = self.mode == StartupMode::ColdStart;
        if cold {
            self.metrics.replay_started_at = Some(now_ms);
        }
        let buffered = match self.socket_client.as_mut() {
            Some(client) => client.take_buffered_events(),
            None => {
                return Err(StartupError::SocketClient(String::from_str("No socket client")));
            },
        };
        let reference: u64 = match self.scrape_reference_block {
            Some(block) => block,
            None => 0,
        };
        let ghost began = self@;
        let ghost counted_before = self.metrics.events_replayed;
        let mut errors: Vec<EventProcessorError> = Vec::new();
        let mut replayed: usize = self.metrics.events_replayed;
        let mut total: usize = 0;
        let mut i: usize = 0;
        assert(buffered@.subrange(0, 0) =~= Seq::<PoolEvent>::empty());
        while i < buffered.len()
            invariant
                i <= buffered@.len(),
                registry.wf(),
                self@ == (CoordinatorState { stats: self@.stats, ..began }),
                total == after_reference(buffered@.subrange(0, i as int), reference).len(),
                total <= i,
                errors@.len() <= total,
                replayed == raised_by(counted_before, total - errors@.len()),
                batch_processed(
                    old(self)@.stats,
                    *old(registry),
                    after_reference(buffered@.subrange(0, i as int), reference),
                    self@.stats,
                    *registry,
                    errors@,
                ),
            decreases buffered@.len() - i,
        {
            let event = &buffered[i];
            proof {
                let done = buffered@.subrange(0, i as int);
                assert(buffered@.subrange(0, i + 1) =~= done.push(buffered@[i as int]));
                done.lemma_filter_push(
                    buffered@[i as int],
                    |event: PoolEvent| event.block_number > reference,
                );
            }
            if event.block_number > reference {
                let ghost stats_between = self@.stats;
                let ghost between = *registry;
                let ghost earlier = errors@;
                let result = self.apply_event(registry, event);
                proof {
                    let now_done = after_reference(buffered@.subrange(0, i + 1), reference);
                    assert(now_done.drop_last() =~= after_reference(
                        buffered@.subrange(0, i as int),
                        reference,
                    ));
                    assert(now_done.last() == *event);
                    assert(processed(
                        stats_between,
                        &between,
                        now_done.last(),
                        self@.stats,
                        &*registry,
                        result,
                    ));
                }
                total = total + 1;
                match result {
                    Ok(_) => {
                        replayed = bump_count(replayed);
                    },
                    Err(error) => {
                        errors.push(error);
                    },
                }
                proof {
                    assert(errors@ == collected(earlier, result));
                }
            }
            i += 1;
        }
        assert(buffered@.subrange(0, i as int) =~= buffered@);
        proof {
            if all_held(old(registry), old(self)@.loaded_pools) {
                lemma_batch_keeps_locations(
                    old(self)@.stats,
                    *old(registry),
                    after_reference(buffered@, reference),
                    self@.stats,
                    *registry,
                    errors@,
                );
                assert forall|k: int| 0 <= k < self@.loaded_pools.len() implies holds_pool(
                    &*registry,
                    #[trigger] self@.loaded_pools[k],
                ) by {
                    assert(holds_pool(old(registry), old(self)@.loaded_pools[k]));
                }
            }
        }
        if cold {
            self.metrics.events_buffered = buffered.len();
            self.metrics.events_replayed = replayed;
            self.phase = raise_to(
                self.phase,
                StartupPhase::ReplayingEvents {
                    events_completed: total - total % 1000,
                    events_total: total,
                },
            );
        }
        Ok(ReplayReport { buffered, errors })
    }

    /// Switches to live processing: the client hands out blocks from now on,
    /// and a cold start is complete.
    pub fn phase_4_go_live(&mut self, now_ms: u64)
        ensures
            final(self)@ == gone_live(old(self)@, now_ms),
    {
        match self.socket_client.as_mut() {
            Some(client) => {
                client.set_mode(ClientMode::Live);
            },
            None => {},
        }
        if self.mode == StartupMode::ColdStart {
            self.phase = StartupPhase::Live;
            self.metrics.replay_completed_at = Some(now_ms);
            match self.metrics.replay_started_at {
                Some(started) => {
                    self.metrics.replay_duration_ms = Some(time_between(started, now_ms));
                },
                None => {},
            }
            self.metrics.live_mode_started_at = Some(now_ms);
            match self.metrics.startup_started_at {
                Some(started) => {
                    self.metrics.total_startup_duration_ms = Some(time_between(started, now_ms));
                },
                None => {},
            }
        }
        self.stage = Stage::Idle;
        self.awaited = None;
    }
}

/// What a step of the load comes to when nothing is reported from outside.
/// While the load waits for the caller it asks again for what it waits for.
/// While it scrapes it makes a step of scraping. When the replay is due it
/// replays, and hands back the report or, without a client, gives the load up.
/// When the switch to live mode is due it makes it, and the load is complete.
pub open spec fn advanced(
    s: CoordinatorState,
    before: PoolArenaRegistry,
    now_ms: u64,
    after_state: CoordinatorState,
    after: PoolArenaRegistry,
    action: StartupAction,
) -> bool {
    match s.stage {
        Stage::Idle => after_state == s && after == before && action == StartupAction::Done,
        Stage::Connecting => after_state == s && after == before && action == (
        StartupAction::Connect { delay_ms: 0 }),
        Stage::AwaitingReference => after_state == s && after == before && action
            == StartupAction::QueryCurrentBlock,
        Stage::AwaitingBlockAfterV2 => after_state == s && after == before && action
            == StartupAction::QueryCurrentBlock,
        Stage::AwaitingBlockAfterV3V4 => after_state == s && after == before && action
            == StartupAction::QueryCurrentBlock,
        Stage::ScrapingV2 => after == before && scrape_step(s, now_ms, after_state, action),
        Stage::ScrapingV3V4 => after == before && scrape_step(s, now_ms, after_state, action),
        Stage::Replaying => match action {
            StartupAction::Replayed(report) => after_state.stage == Stage::GoingLive
                && replay_done(
                s,
                before,
                now_ms,
                CoordinatorState { stage: Stage::Replaying, ..after_state },
                after,
                Ok(report),
            ),
            StartupAction::Failed(error) => after_state.stage == Stage::Idle && replay_done(
                s,
                before,
                now_ms,
                CoordinatorState { stage: Stage::Replaying, ..after_state },
                after,
                Err(error),
            ),
            _ => false,
        },
        Stage::GoingLive => after_state == gone_live(s, now_ms) && after == before && action
            == StartupAction::Done,
    }
}

/// The state after a message of the stream was handled during a load: the
/// client as the block state machine leaves it, and a cold start given up if
/// the buffer overflowed.
pub open spec fn message_buffered(s: CoordinatorState, message: SocketMessage) -> CoordinatorState
    recommends
        s.client is Some,
{
    let handled = step(s.client.unwrap(), message);
    CoordinatorState {
        client: Some(handled.0),
        stage: if handled.1 is Overflow && s.mode == StartupMode::ColdStart {
            Stage::Idle
        } else {
            s.stage
        },
        ..s
    }
}

impl StartupCoordinator {
    /// Makes the next step of the load that needs nothing from outside, and
    /// says what the caller is to do next.
    pub fn advance(&mut self, registry: &mut PoolArenaRegistry, now_ms: u64) -> (action:
        StartupAction)
        requires
            old(registry).wf(),
        ensures
            final(registry).wf(),
            advanced(old(self)@, *old(registry), now_ms, final(self)@, *final(registry), action),
            all_held(old(registry), old(self)@.loaded_pools) ==> all_held(
                final(registry),
                final(self)@.loaded_pools,
            ),
    {
        match self.stage {
            Stage::Idle => StartupAction::Done,
            Stage::Connecting => StartupAction::Connect { delay_ms: 0 },
            Stage::AwaitingReference => StartupAction::QueryCurrentBlock,
            Stage::AwaitingBlockAfterV2 => StartupAction::QueryCurrentBlock,
            Stage::AwaitingBlockAfterV3V4 => StartupAction::QueryCurrentBlock,
            Stage::ScrapingV2 => self.phase_2_scrape_pools(now_ms),
            Stage::ScrapingV3V4 => self.phase_2_scrape_pools(now_ms),
            Stage::Replaying => {
                let result = self.phase_3_replay_events(registry, now_ms);
                let ghost replayed = self@;
                match result {
                    Ok(report) => {
                        self.stage = Stage::GoingLive;
                        assert((CoordinatorState { stage: Stage::Replaying, ..self@ })
                            == replayed);
                        StartupAction::Replayed(report)
                    },
                    Err(error) => {
                        self.stage = Stage::Idle;
                        assert((CoordinatorState { stage: Stage::Replaying, ..self@ })
                            == replayed);
                        StartupAction::Failed(error)
                    },
                }
            },
            Stage::GoingLive => {
                self.phase_4_go_live(now_ms);
                StartupAction::Done
            },
        }
    }

    /// Takes in the bytes that one read of the socket returned while a load is
    /// under way, and hands out the payloads of the frames that are now
    /// complete. The client's failures come back as `SocketClient` errors.
    pub fn buffer_stream_data(&mut self, data: &[u8]) -> (result: Result<
        Vec<Vec<u8>>,
        StartupError,
    >)
        ensures
            old(self)@.client matches Some(client) ==> {
                if client.connected && data@.len() > 0 {
                    (result matches Ok(frames) && contents(frames@) == payloads(
                        client.unread + data@,
                    )) && final(self)@ == (CoordinatorState {
                        client: Some(
                            ClientState { unread: residue(client.unread + data@), ..client },
                        ),
                        ..old(self)@
                    })
                } else {
                    (result matches Err(StartupError::SocketClient(_))) && final(self)@ == old(
                        self,
                    )@
                }
            },
            old(self)@.client is None ==> (result matches Err(StartupError::SocketClient(text))
                && text@ == "No socket client"@) && final(self)@ == old(self)@,
    {
        match self.socket_client.as_mut() {
            Some(client) => match client.read_and_process(data) {
                Ok(frames) => Ok(frames),
                Err(error) => Err(StartupError::SocketClient(error.describe())),
            },
            None => Err(StartupError::SocketClient(String::from_str("No socket client"))),
        }
    }

    /// Takes in one decoded message of the stream while a load is under way.
    /// The client handles it as its block state machine says; its failures
    /// come back as `SocketClient` errors, and an overflow of the buffer ends
    /// a cold start.
    pub fn handle_stream_message(&mut self, message: SocketMessage) -> (result: Result<
        Option<Vec<PoolEvent>>,
        StartupError,
    >)
        ensures
            old(self)@.client matches Some(client) ==> final(self)@ == message_buffered(
                old(self)@,
                message,
            ) && match step(client, message).1 {
                Outcome::Accepted => result matches Ok(None),
                Outcome::Delivered(events) => result matches Ok(Some(block)) && block@ == events,
                Outcome::Rejected => result matches Err(StartupError::SocketClient(_)),
                Outcome::Overflow { .. } => result matches Err(StartupError::SocketClient(_)),
            },
            old(self)@.client is None ==> (result matches Err(StartupError::SocketClient(text))
                && text@ == "No socket client"@) && final(self)@ == old(self)@,
    {
        let handled = match self.socket_client.as_mut() {
            Some(client) => client.handle_message(message),
            None => {
                return Err(StartupError::SocketClient(String::from_str("No socket client")));
            },
        };
        match handled {
            Ok(block) => Ok(block),
            Err(error) => {
                let overflow = match &error {
                    SocketClientError::BufferOverflow { .. } => true,
                    _ => false,
                };
                if overflow && self.mode == StartupMode::ColdStart {
                    self.stage = Stage::Idle;
                }
                Err(StartupError::SocketClient(error.describe()))
            },
        }
    }
}

/// No step takes the startup back: whatever is reported and whenever, the
/// phase after a step stands where it stood or later in the order not
/// started, connecting, scraping, replaying, live.
pub proof fn lemma_phase_never_falls(
    s: CoordinatorState,
    pools: Seq<PoolInfo>,
    succeeded: bool,
    block: u64,
    stats: EventProcessorStats,
    buffered: Seq<PoolEvent>,
    failures: int,
    message: SocketMessage,
    now_ms: u64,
)
    ensures
        phase_rank(cold_start_begun(s, pools, now_ms).phase) >= phase_rank(s.phase),
        phase_rank(addition_begun(s, pools).phase) >= phase_rank(s.phase),
        phase_rank(connection_reported(s, succeeded, now_ms).phase) >= phase_rank(s.phase),
        phase_rank(pool_done(s, succeeded).phase) >= phase_rank(s.phase),
        phase_rank(list_closed(s, now_ms).phase) >= phase_rank(s.phase),
        phase_rank(block_reported(s, block, now_ms).phase) >= phase_rank(s.phase),
        phase_rank(replay_noted(s, stats, buffered, failures, now_ms).phase) >= phase_rank(s.phase),
        phase_rank(gone_live(s, now_ms).phase) >= phase_rank(s.phase),
        phase_rank(message_buffered(s, message).phase) >= phase_rank(s.phase),
{
}

/// A step of scraping, a replay and a step of the load take the startup
/// forward or leave it where it stands.
pub proof fn lemma_steps_never_fall(
    s: CoordinatorState,
    before: PoolArenaRegistry,
    now_ms: u64,
    after_state: CoordinatorState,
    after: PoolArenaRegistry,
    action: StartupAction,
    result: Result<ReplayReport, StartupError>,
)
    ensures
        scrape_step(s, now_ms, after_state, action) ==> phase_rank(after_state.phase)
            >= phase_rank(s.phase),
        replay_done(s, before, now_ms, after_state, after, result) ==> phase_rank(
            after_state.phase,
        ) >= phase_rank(s.phase),
        advanced(s, before, now_ms, after_state, after, action) ==> phase_rank(after_state.phase)
            >= phase_rank(s.phase),
{
    lemma_phase_never_falls(
        s,
        Seq::empty(),
        false,
        0,
        after_state.stats,
        Seq::empty(),
        0,
        SocketMessage::BeginBlock { block_number: 0, is_revert: false },
        now_ms,
    );
    if replay_done(s, before, now_ms, after_state, after, result) {
        if s.client is Some {
            let report = result->Ok_0;
            lemma_phase_never_falls(
                s,
                Seq::empty(),
                false,
                0,
                after_state.stats,
                report.buffered@,
                report.errors@.len() as int,
                SocketMessage::BeginBlock { block_number: 0, is_revert: false },
                now_ms,
            );
        }
    }
    if advanced(s, before, now_ms, after_state, after, action) && s.stage == Stage::Replaying {
        let mid = CoordinatorState { stage: Stage::Replaying, ..after_state };
        match action {
            StartupAction::Replayed(report) => {
                if s.client is Some {
                    lemma_phase_never_falls(
                        s,
                        Seq::empty(),
                        false,
                        0,
                        mid.stats,
                        report.buffered@,
                        report.errors@.len() as int,
                        SocketMessage::BeginBlock { block_number: 0, is_revert: false },
                        now_ms,
                    );
                }
            },
            _ => {},
        }
    }
}

/// The replay leaves the baseline alone: every event that is replayed came
/// after the reference block, and every buffered event that came after the
/// reference block is replayed.
pub proof fn lemma_replay_leaves_out_the_baseline(buffered: Seq<PoolEvent>, reference: u64)
    ensures
        forall|i: int|
            0 <= i < after_reference(buffered, reference).len() ==> (#[trigger] after_reference(
                buffered,
                reference,
            )[i]).block_number > reference,
        forall|i: int|
            0 <= i < buffered.len() && (#[trigger] buffered[i]).block_number > reference
                ==> after_reference(buffered, reference).contains(buffered[i]),
        forall|i: int|
            0 <= i < after_reference(buffered, reference).len() ==> buffered.contains(
                #[trigger] after_reference(buffered, reference)[i],
            ),
{
    let kept = |event: PoolEvent| event.block_number > reference;
    assert forall|i: int| 0 <= i < after_reference(buffered, reference).len() implies (
    #[trigger] after_reference(buffered, reference)[i]).block_number > reference
        && buffered.contains(after_reference(buffered, reference)[i]) by {
        let replayed = after_reference(buffered, reference);
        buffered.lemma_filter_pred(kept, i);
        assert(replayed.contains(replayed[i]));
        buffered.lemma_filter_contains_rev(kept, replayed[i]);
    }
    assert forall|i: int|
        0 <= i < buffered.len() && (#[trigger] buffered[i]).block_number
            > reference implies after_reference(buffered, reference).contains(buffered[i]) by {
        buffered.lemma_filter_contains(kept, i);
    }
}

/// Whether the registry holds a pool under `identifier`: a pair or a V3 pool
/// under an address, a V4 pool under a pool id.
pub open spec fn holds_pool(registry: &PoolArenaRegistry, identifier: PoolIdentifier) -> bool {
    match identifier {
        PoolIdentifier::Address(address) => registry.locate_pair(address) is Some
            || registry.locate(Family::V3, identifier) is Some,
        PoolIdentifier::PoolId(_) => registry.locate(Family::V4, identifier) is Some,
    }
}

/// Whether the registry holds every pool of the list.
pub open spec fn all_held(registry: &PoolArenaRegistry, loaded: Seq<PoolIdentifier>) -> bool {
    forall|i: int| 0 <= i < loaded.len() ==> holds_pool(registry, #[trigger] loaded[i])
}

/// Every pool that was noted as loaded is held by the registry, and stays
/// held when another pool is loaded: the pool that is loaded joins the list
/// and the registry together, and the pools before it keep their places.
pub proof fn lemma_loading_keeps_loaded_pools_held(
    before: &PoolArenaRegistry,
    after: &PoolArenaRegistry,
    loaded: Seq<PoolIdentifier>,
    identifier: PoolIdentifier,
    protocol: Seq<char>,
    scraped: Result<RawPoolState, String>,
)
    requires
        before.wf(),
        after.wf(),
        all_held(before, loaded),
        load_applied(before, after, identifier, protocol, scraped),
    ensures
        all_held(after, loaded),
        loads(before, identifier, protocol, scraped) ==> all_held(
            after,
            with_loaded(loaded, identifier),
        ),
{
    lemma_load_keeps_pools(before, after, identifier, protocol, scraped);
    assert forall|i: int| 0 <= i < loaded.len() implies holds_pool(after, #[trigger] loaded[i]) by {
        assert(holds_pool(before, loaded[i]));
        match loaded[i] {
            PoolIdentifier::Address(address) => {
                if before.locate_pair(address) is Some {
                    assert(after.locate_pair(address) == before.locate_pair(address));
                } else {
                    assert(after.locate(Family::V3, loaded[i]) == before.locate(
                        Family::V3,
                        loaded[i],
                    ));
                }
            },
            PoolIdentifier::PoolId(_) => {
                assert(after.locate(Family::V4, loaded[i]) == before.locate(
                    Family::V4,
                    loaded[i],
                ));
            },
        }
    }
    if loads(before, identifier, protocol, scraped) {
        let raw = scraped->Ok_0;
        lemma_loaded_pool_stands_at_its_tier(before, after, identifier, protocol, raw);
        crate::event_processor::lemma_protocol_names_differ();
        assert(holds_pool(after, identifier));
        let longer = with_loaded(loaded, identifier);
        assert forall|i: int| 0 <= i < longer.len() implies holds_pool(
            after,
            #[trigger] longer[i],
        ) by {
            if i < loaded.len() {
                assert(longer[i] == loaded[i]);
            }
        }
    }
}

/// A replay leaves every loaded pool in the registry, where it stood.
pub proof fn lemma_replay_keeps_loaded_pools_held(
    s: CoordinatorState,
    before: PoolArenaRegistry,
    now_ms: u64,
    after_state: CoordinatorState,
    after: PoolArenaRegistry,
    result: Result<ReplayReport, StartupError>,
)
    requires
        before.wf(),
        after.wf(),
        all_held(&before, s.loaded_pools),
        replay_done(s, before, now_ms, after_state, after, result),
    ensures
        after_state.loaded_pools == s.loaded_pools,
        all_held(&after, after_state.loaded_pools),
        forall|f: Family, id: PoolIdentifier|
            (#[trigger] before.locate(f, id)) is Some ==> after.locate(f, id) == before.locate(
                f,
                id,
            ),
        forall|address: [u8; 20]|
            (#[trigger] before.locate_pair(address)) is Some ==> after.locate_pair(address)
                == before.locate_pair(address),
{
    if s.client is Some {
        let report = result->Ok_0;
        lemma_batch_keeps_locations(
            s.stats,
            before,
            after_reference(report.buffered@, replay_cut(s)),
            after_state.stats,
            after,
            report.errors@,
        );
    }
    assert forall|i: int| 0 <= i < s.loaded_pools.len() implies holds_pool(
        &after,
        #[trigger] s.loaded_pools[i],
    ) by {
        assert(holds_pool(&before, s.loaded_pools[i]));
    }
}

} // verus!
