//! Runtime-state data shapes shared with the serving layer, and the pure
//! decisions behind the shared-state mutators: run-id allocation and the
//! bounded execution log.

use vstd::prelude::*;

verus! {

/// Readiness probe for the state types.
pub fn module_ready() -> (r: bool)
    ensures
        r,
{
    true
}

#[derive(Debug, Clone, Copy, PartialEq, Eq, Structural)]
pub enum FeedMode {
    PaperLive,
    Sim,
}

/// How many payloads one feed source has delivered.
#[derive(Debug, Clone, PartialEq, Eq)]
pub struct SourceCount {
    pub source: String,
    pub count: u64,
}

#[derive(Debug, Clone, PartialEq, Eq)]
pub struct FeedHealthResponse {
    pub mode: FeedMode,
    pub source_counts: Vec<SourceCount>,
}

#[derive(Debug, Clone, PartialEq, Eq)]
pub struct DiscoveredMarket {
    pub source: String,
    pub market_id: String,
}

#[derive(Debug, Clone, PartialEq, Eq)]
pub struct DiscoveredMarketsResponse {
    pub markets: Vec<DiscoveredMarket>,
}

#[derive(Debug, Clone, Copy, PartialEq, Eq, Structural)]
pub enum ExecutionMode {
    Paper,
    Live,
}

impl Default for ExecutionMode {
    fn default() -> (r: ExecutionMode)
        ensures
            r == ExecutionMode::Paper,
    {
        ExecutionMode::Paper
    }
}

/// One line of the dashboard's execution log.
#[derive(Debug, Clone, PartialEq, Eq)]
pub struct ExecutionLogEntry {
    pub ts: u64,
    pub event: String,
    pub headline: String,
    pub detail: String,
}

#[derive(Debug, Clone, Copy, PartialEq, Eq, Structural)]
pub enum StartRunError {
    RunIdOverflow,
}

#[derive(Debug, Clone, Copy, PartialEq, Eq, Structural)]
pub enum PaperOrderSide {
    Buy,
    Sell,
}

/// The run id handed out after `current` ran, or an overflow error once the
/// counter is exhausted.
pub fn allocate_run_id(current: u64) -> (r: Result<u64, StartRunError>)
    ensures
        current < u64::MAX ==> r == Ok::<u64, StartRunError>((current + 1) as u64),
        current == u64::MAX ==> r == Err::<u64, StartRunError>(StartRunError::RunIdOverflow),
{
    if current < u64::MAX {
        Ok(current + 1)
    } else {
        Err(StartRunError::RunIdOverflow)
    }
}

/// A log capped to its newest `max` entries.
pub open spec fn capped_log(s: Seq<ExecutionLogEntry>, max: int) -> Seq<ExecutionLogEntry> {
    if s.len() > max {
        s.skip(s.len() - max)
    } else {
        s
    }
}

/// Appends one entry and drops the oldest entries beyond `max_entries`.
pub fn push_execution_log(
    logs: &mut Vec<ExecutionLogEntry>,
    entry: ExecutionLogEntry,
    max_entries: usize,
)
    ensures
        final(logs)@ == capped_log(old(logs)@.push(entry), max_entries as int),
{
    logs.push(entry);
    let ghost appended = logs@;
    let ghost mut dropped: int = 0;
    proof {
        assert(appended.skip(0) =~= appended);
    }
    while logs.len() > max_entries
        invariant
            0 <= dropped <= appended.len(),
            logs@ == appended.skip(dropped),
            appended.len() > max_entries ==> dropped <= appended.len() - max_entries,
            appended.len() <= max_entries ==> dropped == 0,
        decreases logs@.len(),
    {
        logs.remove(0);
        proof {
            assert(logs@ =~= appended.skip(dropped + 1));
            dropped = dropped + 1;
        }
    }
    proof {
        if appended.len() > max_entries {
            assert(dropped == appended.len() - max_entries);
        }
        assert(logs@ =~= capped_log(appended, max_entries as int));
    }
}

} // verus!
