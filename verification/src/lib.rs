//! Paper-trading research engine: the verified decision core of a
//! market-latency lab.
//!
//! The library holds the logic worth proving: per-tick lifecycle events, the
//! task-supervision state machine, latency metrics, market discovery, the
//! replay-journal content contract, deterministic generators, the per-tick
//! order-lifecycle decision, and the parsing, mode and error vocabulary the
//! server loop decides with. The unverified serving
//! layer (HTTP, sockets, clocks, floating-point pricing) lives outside the
//! library and speaks to it through these types.

pub mod benchmark;
pub mod discovery;
pub mod engine;
pub mod events;
pub mod feeds;
pub mod generators;
pub mod logging;
pub mod median;
pub mod metrics;
pub mod replay;
pub mod server;
pub mod state;
pub mod strategy;
pub mod supervisor;
pub mod text;
pub mod ui;

use vstd::prelude::*;

verus! {

/// Readiness probe for the runtime library.
pub fn module_ready() -> (r: bool)
    ensures
        r,
{
    true
}

} // verus!
