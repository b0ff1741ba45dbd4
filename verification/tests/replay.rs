use std::cell::Cell;
use std::io;
use std::rc::Rc;

use lag_lab::logging::{
    InMemoryRunLogWriter, PaperJournalRow, PaperJournalRowKind, RunLogEvent, RunLogEventKind,
    RunLogWriter,
};
use lag_lab::replay::{ReplayCsvWriter, ReplaySink, REPLAY_CSV_HEADER};

struct TrackingWriter {
    bytes: Vec<u8>,
    flush_called: Rc<Cell<bool>>,
    flush_fails: bool,
}

impl TrackingWriter {
    fn new(flush_called: Rc<Cell<bool>>, flush_fails: bool) -> Self {
        Self {
            bytes: Vec::new(),
            flush_called,
            flush_fails,
        }
    }
}

impl ReplaySink for TrackingWriter {
    fn write_all(&mut self, buf: &[u8]) -> io::Result<()> {
        self.bytes.extend_from_slice(buf);
        Ok(())
    }

    fn flush(&mut self) -> io::Result<()> {
        self.flush_called.set(true);
        if self.flush_fails {
            return Err(io::Error::other("flush failed"));
        }
        Ok(())
    }
}

struct FlushAssertingLogWriter {
    flush_called: Rc<Cell<bool>>,
}

impl RunLogWriter for FlushAssertingLogWriter {
    fn write(&mut self, _event: RunLogEvent) {
        assert!(
            self.flush_called.get(),
            "expected writer flush before logging"
        );
    }
}

#[test]
fn write_header_and_log_flushes_before_emitting_log() {
    let flush_called = Rc::new(Cell::new(false));
    let writer = TrackingWriter::new(Rc::clone(&flush_called), false);
    let mut replay_writer = ReplayCsvWriter::new(writer);
    let mut log_writer = FlushAssertingLogWriter { flush_called };

    replay_writer
        .write_header_and_log(7, &mut log_writer)
        .expect("header write should flush and log");
}

#[test]
fn write_header_and_log_propagates_flush_errors() {
    let flush_called = Rc::new(Cell::new(false));
    let writer = TrackingWriter::new(Rc::clone(&flush_called), true);
    let mut replay_writer = ReplayCsvWriter::new(writer);
    let mut log_writer = InMemoryRunLogWriter::new();

    let err = replay_writer
        .write_header_and_log(3, &mut log_writer)
        .expect_err("flush failure should be returned");

    assert_eq!(err.kind(), io::ErrorKind::Other);
    assert_eq!(log_writer.events().len(), 0);
}

#[test]
fn write_header_and_log_uses_tick_from_caller() {
    let mut replay_writer = ReplayCsvWriter::new(Vec::new());
    let mut log_writer = InMemoryRunLogWriter::new();

    replay_writer
        .write_header_and_log(42, &mut log_writer)
        .expect("header and log write should succeed");

    let output = replay_writer.into_sink();
    assert_eq!(String::from_utf8(output).unwrap(), REPLAY_CSV_HEADER);
    assert_eq!(log_writer.events().len(), 1);
    assert_eq!(log_writer.events()[0].tick, 42);
    assert_eq!(
        log_writer.events()[0].kind,
        RunLogEventKind::ReplayArtifactWritten
    );
}

fn sample_paper_fill_row() -> PaperJournalRow {
    PaperJournalRow {
        tick: 17,
        kind: PaperJournalRowKind::PaperFill,
        action_detail: "buy:market-1@0.62x5".to_string(),
    }
}

fn write_csv_for_test(rows: Vec<PaperJournalRow>) -> io::Result<String> {
    let mut writer = ReplayCsvWriter::new(Vec::new());
    writer.write_header()?;
    writer.append_paper_journal_rows(&rows)?;
    let output = writer.into_sink();
    Ok(String::from_utf8(output).expect("csv output should be utf8"))
}

#[test]
fn replay_writer_appends_paper_fill_rows() {
    let csv = write_csv_for_test(vec![sample_paper_fill_row()]).unwrap();
    assert_eq!(
        csv,
        format!("{REPLAY_CSV_HEADER}17,,,,paper_fill:buy:market-1@0.62x5,,,,\n")
    );
}

#[test]
fn replay_writer_escapes_action_field_with_csv_rules() {
    let mut row = sample_paper_fill_row();
    row.action_detail = "buy,\"market-1\"\nleg2".to_string();

    let csv = write_csv_for_test(vec![row]).unwrap();

    assert_eq!(
        csv,
        format!("{REPLAY_CSV_HEADER}17,,,,\"paper_fill:buy,\"\"market-1\"\"\nleg2\",,,,\n")
    );
}

#[test]
fn replay_writer_keeps_batch_order_and_blank_details() {
    let rows = vec![
        PaperJournalRow {
            tick: 0,
            kind: PaperJournalRowKind::PaperFill,
            action_detail: String::new(),
        },
        PaperJournalRow {
            tick: 1234567890,
            kind: PaperJournalRowKind::PaperFill,
            action_detail: "sell:market-2@0.41x2".to_string(),
        },
    ];

    let csv = write_csv_for_test(rows).unwrap();

    assert_eq!(
        csv,
        format!("{REPLAY_CSV_HEADER}0,,,,paper_fill,,,,\n1234567890,,,,paper_fill:sell:market-2@0.41x2,,,,\n")
    );
}

#[test]
fn as_replay_action_names_the_fill_kind() {
    assert_eq!(PaperJournalRowKind::PaperFill.as_replay_action(), "paper_fill");
}

#[test]
fn in_memory_run_log_writer_keeps_events_in_order() {
    let mut log_writer = InMemoryRunLogWriter::new();
    log_writer.write(RunLogEvent::new(1, RunLogEventKind::TickStarted, None));
    log_writer.write(RunLogEvent::new(
        1,
        RunLogEventKind::DecisionLatencyRecorded,
        Some(250),
    ));

    let events = log_writer.events();
    assert_eq!(events.len(), 2);
    assert_eq!(events[0].kind, RunLogEventKind::TickStarted);
    assert_eq!(events[1].decision_latency_micros, Some(250));
}
