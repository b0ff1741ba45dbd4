//! The simulation engine's tick driver: each step emits the ordered lifecycle
//! stages of one decision tick.

use vstd::prelude::*;

use crate::events::RuntimeEvent;
use crate::events::RuntimeStage;
use crate::strategy::Signal;

verus! {

/// The per-tick order-lifecycle decision: which events one decision tick
/// emits, given the signal outcome, the risk gate's verdict and whether a
/// simulated fill was recorded. A failed or `Hold` signal emits nothing; a
/// trading signal always opens with the intent event; a risk rejection or a
/// failed execution stops there — the lone intent event is the deliberate
/// partial-failure record — and only a recorded fill adds the fill event.
pub fn paper_tick_events(
    tick: u64,
    action: Option<Signal>,
    risk_accepted: bool,
    fill_recorded: bool,
) -> (r: Vec<RuntimeEvent>)
    ensures
        (action is None || action == Some(Signal::Hold)) ==> r@ == Seq::<RuntimeEvent>::empty(),
        (action == Some(Signal::Buy) || action == Some(Signal::Sell)) && !risk_accepted ==> r@
            == seq![RuntimeEvent { tick, stage: RuntimeStage::PaperIntentCreated }],
        (action == Some(Signal::Buy) || action == Some(Signal::Sell)) && risk_accepted
            && !fill_recorded ==> r@ == seq![
            RuntimeEvent { tick, stage: RuntimeStage::PaperIntentCreated },
        ],
        (action == Some(Signal::Buy) || action == Some(Signal::Sell)) && risk_accepted
            && fill_recorded ==> r@ == seq![
            RuntimeEvent { tick, stage: RuntimeStage::PaperIntentCreated },
            RuntimeEvent { tick, stage: RuntimeStage::PaperFillRecorded },
        ],
{
    let mut events: Vec<RuntimeEvent> = Vec::new();
    let trading = match action {
        Some(Signal::Buy) => true,
        Some(Signal::Sell) => true,
        Some(Signal::Hold) => false,
        None => false,
    };
    if !trading {
        proof {
            assert(events@ =~= Seq::<RuntimeEvent>::empty());
        }
        return events;
    }

    events.push(RuntimeEvent::new(tick, RuntimeStage::PaperIntentCreated));
    if risk_accepted && fill_recorded {
        events.push(RuntimeEvent::new(tick, RuntimeStage::PaperFillRecorded));
        proof {
            assert(events@ =~= seq![
                RuntimeEvent { tick, stage: RuntimeStage::PaperIntentCreated },
                RuntimeEvent { tick, stage: RuntimeStage::PaperFillRecorded },
            ]);
        }
    } else {
        proof {
            assert(events@ =~= seq![
                RuntimeEvent { tick, stage: RuntimeStage::PaperIntentCreated },
            ]);
        }
    }
    events
}

/// Deterministic engine for driving ticks in tests and simulations.
pub struct SimEngine {
    seed: u64,
    tick: u64,
}

impl SimEngine {
    pub closed spec fn seed(&self) -> u64 {
        self.seed
    }

    pub closed spec fn tick(&self) -> u64 {
        self.tick
    }

    pub fn for_test_seed(seed: u64) -> (r: SimEngine)
        ensures
            r.seed() == seed,
            r.tick() == 0,
    {
        SimEngine { seed, tick: 0 }
    }

    /// Advances one tick and emits its five lifecycle stages in order.
    pub fn step_once(&mut self) -> (r: Vec<RuntimeEvent>)
        requires
            old(self).tick() < u64::MAX,
        ensures
            final(self).tick() == old(self).tick() + 1,
            final(self).seed() == old(self).seed(),
            r@ == seq![
                RuntimeEvent { tick: final(self).tick(), stage: RuntimeStage::TickStarted },
                RuntimeEvent { tick: final(self).tick(), stage: RuntimeStage::MarketDataApplied },
                RuntimeEvent { tick: final(self).tick(), stage: RuntimeStage::SignalsGenerated },
                RuntimeEvent { tick: final(self).tick(), stage: RuntimeStage::OrdersSimulated },
                RuntimeEvent { tick: final(self).tick(), stage: RuntimeStage::PortfolioUpdated },
            ],
    {
        self.tick = self.tick + 1;
        let tick = self.tick;
        let mut events: Vec<RuntimeEvent> = Vec::new();
        events.push(RuntimeEvent::new(tick, RuntimeStage::TickStarted));
        events.push(RuntimeEvent::new(tick, RuntimeStage::MarketDataApplied));
        events.push(RuntimeEvent::new(tick, RuntimeStage::SignalsGenerated));
        events.push(RuntimeEvent::new(tick, RuntimeStage::OrdersSimulated));
        events.push(RuntimeEvent::new(tick, RuntimeStage::PortfolioUpdated));
        proof {
            assert(events@ =~= seq![
                RuntimeEvent { tick: tick, stage: RuntimeStage::TickStarted },
                RuntimeEvent { tick: tick, stage: RuntimeStage::MarketDataApplied },
                RuntimeEvent { tick: tick, stage: RuntimeStage::SignalsGenerated },
                RuntimeEvent { tick: tick, stage: RuntimeStage::OrdersSimulated },
                RuntimeEvent { tick: tick, stage: RuntimeStage::PortfolioUpdated },
            ]);
        }
        events
    }

    /// Advances one tick and emits the order-lifecycle events that the
    /// already-evaluated signal, risk and execution outcomes call for; the
    /// numeric evaluation itself happens outside the library.
    pub fn step_live_once(
        &mut self,
        action: Option<Signal>,
        risk_accepted: bool,
        fill_recorded: bool,
    ) -> (r: Vec<RuntimeEvent>)
        requires
            old(self).tick() < u64::MAX,
        ensures
            final(self).tick() == old(self).tick() + 1,
            final(self).seed() == old(self).seed(),
            (action is None || action == Some(Signal::Hold)) ==> r@ == Seq::<
                RuntimeEvent,
            >::empty(),
            (action == Some(Signal::Buy) || action == Some(Signal::Sell)) && !risk_accepted ==> r@
                == seq![
                RuntimeEvent {
                    tick: final(self).tick(),
                    stage: RuntimeStage::PaperIntentCreated,
                },
            ],
            (action == Some(Signal::Buy) || action == Some(Signal::Sell)) && risk_accepted
                && !fill_recorded ==> r@ == seq![
                RuntimeEvent {
                    tick: final(self).tick(),
                    stage: RuntimeStage::PaperIntentCreated,
                },
            ],
            (action == Some(Signal::Buy) || action == Some(Signal::Sell)) && risk_accepted
                && fill_recorded ==> r@ == seq![
                RuntimeEvent {
                    tick: final(self).tick(),
                    stage: RuntimeStage::PaperIntentCreated,
                },
                RuntimeEvent {
                    tick: final(self).tick(),
                    stage: RuntimeStage::PaperFillRecorded,
                },
            ],
    {
        self.tick = self.tick + 1;
        paper_tick_events(self.tick, action, risk_accepted, fill_recorded)
    }
}

} // verus!
