use lag_lab::engine::{paper_tick_events, SimEngine};
use lag_lab::events::{RuntimeEvent, RuntimeStage};
use lag_lab::state::{
    allocate_run_id, push_execution_log, ExecutionLogEntry, StartRunError,
};
use lag_lab::strategy::Signal;

#[test]
fn engine_emits_events_in_expected_order() {
    let mut engine = SimEngine::for_test_seed(7);
    let events = engine.step_once();

    assert_eq!(events.len(), 5);
    assert_eq!(events[0].stage, RuntimeStage::TickStarted);
    assert_eq!(events[1].stage, RuntimeStage::MarketDataApplied);
    assert_eq!(events[2].stage, RuntimeStage::SignalsGenerated);
    assert_eq!(events[3].stage, RuntimeStage::OrdersSimulated);
    assert_eq!(events[4].stage, RuntimeStage::PortfolioUpdated);
}

#[test]
fn engine_ticks_advance_by_one_per_step() {
    let mut engine = SimEngine::for_test_seed(1);
    let first = engine.step_once();
    let second = engine.step_once();

    assert!(first.iter().all(|event| event.tick == 1));
    assert!(second.iter().all(|event| event.tick == 2));
}

#[test]
fn runtime_event_carries_tick_and_stage() {
    let event = RuntimeEvent::new(9, RuntimeStage::PaperIntentCreated);
    assert_eq!(event.tick, 9);
    assert_eq!(event.stage, RuntimeStage::PaperIntentCreated);
    assert!(lag_lab::module_ready());
}

#[test]
fn live_step_emits_intent_then_fill_events() {
    let mut engine = SimEngine::for_test_seed(7);
    let out = engine.step_live_once(Some(Signal::Buy), true, true);

    assert_eq!(out.len(), 2);
    assert_eq!(out[0].stage, RuntimeStage::PaperIntentCreated);
    assert_eq!(out[1].stage, RuntimeStage::PaperFillRecorded);
    assert!(out.iter().all(|event| event.tick == 1));
}

#[test]
fn live_step_emits_no_events_when_signal_is_hold() {
    let mut engine = SimEngine::for_test_seed(7);
    let out = engine.step_live_once(Some(Signal::Hold), true, true);

    assert!(out.is_empty());
}

#[test]
fn live_step_emits_only_intent_when_risk_rejects_execution() {
    let mut engine = SimEngine::for_test_seed(7);
    let out = engine.step_live_once(Some(Signal::Sell), false, false);

    assert_eq!(out.len(), 1);
    assert_eq!(out[0].stage, RuntimeStage::PaperIntentCreated);
}

#[test]
fn live_step_emits_no_events_for_invalid_signal_input() {
    let mut engine = SimEngine::for_test_seed(7);
    let out = engine.step_live_once(None, false, false);

    assert!(out.is_empty());
}

#[test]
fn tick_events_stop_after_the_intent_when_execution_fails() {
    let rejected = paper_tick_events(42, Some(Signal::Buy), true, false);
    assert_eq!(rejected.len(), 1);
    assert_eq!(rejected[0].tick, 42);
    assert_eq!(rejected[0].stage, RuntimeStage::PaperIntentCreated);

    let filled = paper_tick_events(42, Some(Signal::Sell), true, true);
    assert_eq!(filled.len(), 2);
    assert_eq!(filled[1].stage, RuntimeStage::PaperFillRecorded);

    assert!(paper_tick_events(42, Some(Signal::Hold), true, true).is_empty());
    assert!(paper_tick_events(42, None, true, true).is_empty());
}

#[test]
fn run_ids_count_up_and_fail_only_at_the_counter_limit() {
    assert_eq!(allocate_run_id(0), Ok(1));
    assert_eq!(allocate_run_id(41), Ok(42));
    assert_eq!(
        allocate_run_id(u64::MAX),
        Err(StartRunError::RunIdOverflow)
    );
}

fn log_entry(ts: u64, headline: &str) -> ExecutionLogEntry {
    ExecutionLogEntry {
        ts,
        event: "paper_fill".to_string(),
        headline: headline.to_string(),
        detail: String::new(),
    }
}

#[test]
fn execution_log_drops_oldest_entries_beyond_the_cap() {
    let mut logs = Vec::new();
    push_execution_log(&mut logs, log_entry(1, "a"), 2);
    push_execution_log(&mut logs, log_entry(2, "b"), 2);
    push_execution_log(&mut logs, log_entry(3, "c"), 2);

    assert_eq!(logs.len(), 2);
    assert_eq!(logs[0].headline, "b");
    assert_eq!(logs[1].headline, "c");
}
