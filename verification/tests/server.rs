use lag_lab::logging::PaperJournalRowKind;
use lag_lab::server::{
    is_btc_15m_market, parse_bool, parse_bootstrap_paper_journal_row, startup_mode_banner,
    to_state_execution_mode, ExecutionMode, RunMode,
};
use lag_lab::state;

#[test]
fn startup_mode_banner_reports_selected_mode() {
    assert_eq!(
        startup_mode_banner(RunMode::PaperLive),
        "lab-server startup mode: paper-live"
    );
    assert_eq!(
        startup_mode_banner(RunMode::Sim),
        "lab-server startup mode: sim"
    );
}

#[test]
fn btc_15m_market_filter_accepts_matching_market() {
    assert!(is_btc_15m_market(
        "bitcoin-15m-forecast",
        "Will BTC be above 66k in the next 15 minutes?"
    ));
}

#[test]
fn btc_15m_market_filter_rejects_non_15m_or_non_btc_market() {
    assert!(!is_btc_15m_market(
        "bitcoin-daily-forecast",
        "Will BTC be above 70k tomorrow?"
    ));
    assert!(!is_btc_15m_market(
        "eth-15m-forecast",
        "Will ETH rise in 15 minutes?"
    ));
}

#[test]
fn run_mode_parses_and_prints_both_spellings() {
    assert_eq!(RunMode::parse("paper-live"), Some(RunMode::PaperLive));
    assert_eq!(RunMode::parse("sim"), Some(RunMode::Sim));
    assert_eq!(RunMode::parse("live"), None);
    assert_eq!(RunMode::PaperLive.as_str(), "paper-live");
    assert_eq!(RunMode::Sim.as_str(), "sim");
}

#[test]
fn execution_mode_parses_and_prints_both_spellings() {
    assert_eq!(ExecutionMode::parse("paper"), Some(ExecutionMode::Paper));
    assert_eq!(ExecutionMode::parse("live"), Some(ExecutionMode::Live));
    assert_eq!(ExecutionMode::parse("Paper"), None);
    assert_eq!(ExecutionMode::Paper.as_str(), "paper");
    assert_eq!(ExecutionMode::Live.as_str(), "live");
}

#[test]
fn parse_bool_accepts_exactly_true_and_false() {
    assert_eq!(parse_bool("true"), Some(true));
    assert_eq!(parse_bool("false"), Some(false));
    assert_eq!(parse_bool("TRUE"), None);
    assert_eq!(parse_bool("1"), None);
}

#[test]
fn configured_execution_mode_maps_onto_runtime_state_mode() {
    assert_eq!(
        to_state_execution_mode(ExecutionMode::Paper),
        state::ExecutionMode::Paper
    );
    assert_eq!(
        to_state_execution_mode(ExecutionMode::Live),
        state::ExecutionMode::Live
    );
}

#[test]
fn bootstrap_row_parses_tick_kind_and_detail() {
    let row = parse_bootstrap_paper_journal_row("17|paper_fill|buy:market-1@0.62x5").unwrap();
    assert_eq!(row.tick, 17);
    assert_eq!(row.kind, PaperJournalRowKind::PaperFill);
    assert_eq!(row.action_detail, "buy:market-1@0.62x5");
}

#[test]
fn bootstrap_row_trims_fields_and_keeps_separators_in_the_detail() {
    let row = parse_bootstrap_paper_journal_row(" 18 | paper_fill |  a|b:c  ").unwrap();
    assert_eq!(row.tick, 18);
    assert_eq!(row.action_detail, "a|b:c");
}

#[test]
fn bootstrap_row_rejects_malformed_entries() {
    assert!(parse_bootstrap_paper_journal_row("").is_none());
    assert!(parse_bootstrap_paper_journal_row("17").is_none());
    assert!(parse_bootstrap_paper_journal_row("17|paper_fill").is_none());
    assert!(parse_bootstrap_paper_journal_row("17|paper_fill|   ").is_none());
    assert!(parse_bootstrap_paper_journal_row("17|paper_intent|detail").is_none());
    assert!(parse_bootstrap_paper_journal_row("x|paper_fill|detail").is_none());
    assert!(parse_bootstrap_paper_journal_row("-1|paper_fill|detail").is_none());
    assert!(
        parse_bootstrap_paper_journal_row("99999999999999999999999|paper_fill|detail").is_none()
    );
}

#[test]
fn bootstrap_row_accepts_a_leading_plus_on_the_tick() {
    let row = parse_bootstrap_paper_journal_row("+7|paper_fill|detail").unwrap();
    assert_eq!(row.tick, 7);
}
