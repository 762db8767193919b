//! An in-memory mirror of liquidity-pool state, kept up to date from a stream
//! of block-scoped pool events.
//!
//! - [`framing`] cuts the byte stream into length-prefixed frames.
//! - [`socket_client`] assembles blocks from begin/update/end messages and
//!   buffers them or hands them out.
//! - [`registry`] holds the pools, in one arena per kind and tier;
//!   [`pools`] and [`pool_factory`] describe them and make them from scraped
//!   snapshots.
//! - [`event_processor`] applies events to the registry; [`tick_math`] is its
//!   arithmetic on tick liquidity.
//! - [`startup_coordinator`] sequences cold start and the addition of pools.
//!
//! The library does no input or output: the caller reads the socket, runs the
//! scraper and reads the clock, and hands over what they yield.

pub mod event_processor;
pub mod framing;
pub mod identifiers;
pub mod messages;
pub mod pool_factory;
pub mod pools;
pub mod registry;
pub mod socket_client;
pub mod startup_coordinator;
pub mod text;
pub mod tick_math;
pub mod wide;
