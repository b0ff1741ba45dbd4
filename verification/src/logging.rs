//! Run-log events and writers: the typed event records that the replay layer
//! and the in-memory log share.

use vstd::prelude::*;

verus! {

#[derive(Debug, Clone, Copy, PartialEq, Eq, Structural)]
pub enum RunLogEventKind {
    TickStarted,
    MarketDataApplied,
    SignalsGenerated,
    OrdersSimulated,
    PortfolioUpdated,
    DecisionLatencyRecorded,
    ReplayArtifactWritten,
}

/// One run-log record: the tick it belongs to, what happened, and the decision
/// latency where one was measured.
#[derive(Debug, Clone, PartialEq, Eq)]
pub struct RunLogEvent {
    pub tick: u64,
    pub kind: RunLogEventKind,
    pub decision_latency_micros: Option<u64>,
}

impl RunLogEvent {
    pub fn new(tick: u64, kind: RunLogEventKind, decision_latency_micros: Option<u64>) -> (r:
        RunLogEvent)
        ensures
            r.tick == tick,
            r.kind == kind,
            r.decision_latency_micros == decision_latency_micros,
    {
        RunLogEvent { tick, kind, decision_latency_micros }
    }
}

/// A sink for run-log events. `log` is the sequence of events the writer has
/// accepted; `write` appends exactly the event it was handed. A writer that
/// does not model its log keeps the default, which stands for an empty log.
pub trait RunLogWriter {
    open spec fn log(&self) -> Seq<RunLogEvent> {
        Seq::<RunLogEvent>::empty()
    }

    fn write(&mut self, event: RunLogEvent)
        ensures
            final(self).log() == old(self).log().push(event),
    ;
}

#[derive(Debug, Clone, Copy, PartialEq, Eq, Structural)]
pub enum PaperJournalRowKind {
    PaperFill,
}

impl PaperJournalRowKind {
    /// The action label this row kind carries in the replay journal.
    pub fn as_replay_action(self) -> (r: &'static str)
        ensures
            r@ == "paper_fill"@,
    {
        match self {
            PaperJournalRowKind::PaperFill => "paper_fill",
        }
    }
}

/// One decision row bound for the replay journal.
#[derive(Debug, Clone, PartialEq, Eq)]
pub struct PaperJournalRow {
    pub tick: u64,
    pub kind: PaperJournalRowKind,
    pub action_detail: String,
}

/// Run-log writer that keeps every event in memory, in arrival order.
#[derive(Debug)]
pub struct InMemoryRunLogWriter {
    events: Vec<RunLogEvent>,
}

impl InMemoryRunLogWriter {
    pub fn new() -> (r: InMemoryRunLogWriter)
        ensures
            r.log() == Seq::<RunLogEvent>::empty(),
    {
        InMemoryRunLogWriter { events: Vec::new() }
    }

    /// The events written so far, oldest first.
    pub fn events(&self) -> (r: &[RunLogEvent])
        ensures
            r@ == self.log(),
    {
        self.events.as_slice()
    }
}

impl Default for InMemoryRunLogWriter {
    fn default() -> (r: InMemoryRunLogWriter)
        ensures
            r.log() == Seq::<RunLogEvent>::empty(),
    {
        InMemoryRunLogWriter::new()
    }
}

impl RunLogWriter for InMemoryRunLogWriter {
    closed spec fn log(&self) -> Seq<RunLogEvent> {
        self.events@
    }

    fn write(&mut self, event: RunLogEvent) {
        self.events.push(event);
    }
}

} // verus!
