//! Per-tick lifecycle events emitted by the decision orchestrator.

use vstd::prelude::*;

verus! {

/// Stage of one decision tick, in the order the orchestrator emits them:
/// `TickStarted` through `PortfolioUpdated`, with `PaperIntentCreated` and
/// `PaperFillRecorded` marking the simulated-order sub-sequence.
#[derive(Debug, Clone, Copy, PartialEq, Eq, Structural)]
pub enum RuntimeStage {
    TickStarted,
    MarketDataApplied,
    SignalsGenerated,
    OrdersSimulated,
    PortfolioUpdated,
    PaperIntentCreated,
    PaperFillRecorded,
}

/// One lifecycle event: which tick it belongs to and which stage it marks.
/// Never mutated after creation.
#[derive(Debug, Clone, Copy, PartialEq, Eq, Structural)]
pub struct RuntimeEvent {
    pub tick: u64,
    pub stage: RuntimeStage,
}

impl RuntimeEvent {
    pub fn new(tick: u64, stage: RuntimeStage) -> (r: RuntimeEvent)
        ensures
            r.tick == tick,
            r.stage == stage,
    {
        RuntimeEvent { tick, stage }
    }
}

} // verus!
