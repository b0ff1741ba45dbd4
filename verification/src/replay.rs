//! Replay journal: an append-only, header-first tabular log of decisions.
//!
//! The content contract is verified here: the header line, the shape of each
//! appended row, and CSV quoting of the free-text action field. The journal
//! writes through a [`ReplaySink`]; the in-memory byte sink lives here, and a
//! file-backed sink can be supplied by the unverified layer around the
//! library.

use vstd::prelude::*;
use vstd::utf8::encode_utf8;

use crate::logging::PaperJournalRow;
use crate::logging::PaperJournalRowKind;
use crate::logging::RunLogEvent;
use crate::logging::RunLogEventKind;
use crate::logging::RunLogWriter;

verus! {

/// The error a sink reports; opaque to the journal, which only passes it on.
#[verifier::external_type_specification]
#[verifier::external_body]
pub struct ExIoError(std::io::Error);

pub const REPLAY_CSV_HEADER: &'static str =
    "tick,external_px,market_px,divergence,action,equity,realized_pnl,position,halted\n";

/// The journal header as bytes.
pub open spec fn header_bytes() -> Seq<u8> {
    encode_utf8(REPLAY_CSV_HEADER@)
}

/// Decimal digits of `n`, most significant first.
pub open spec fn dec_digits(n: nat) -> Seq<u8>
    decreases n,
{
    if n < 10 {
        seq![(48 + n) as u8]
    } else {
        dec_digits(n / 10) + seq![(48 + n % 10) as u8]
    }
}

/// Bytes that force CSV quoting: comma, double quote, newline, carriage
/// return.
pub open spec fn csv_special(b: u8) -> bool {
    b == 44 || b == 34 || b == 10 || b == 13
}

pub open spec fn needs_quoting(s: Seq<u8>) -> bool {
    exists|i: int| 0 <= i < s.len() && csv_special(s[i])
}

/// How one byte is rendered inside a quoted CSV field: internal double quotes
/// are doubled.
pub open spec fn quoted_unit(b: u8) -> Seq<u8> {
    if b == 34 {
        seq![34u8, 34u8]
    } else {
        seq![b]
    }
}

/// The body of a quoted CSV field.
pub open spec fn doubled_quotes(s: Seq<u8>) -> Seq<u8>
    decreases s.len(),
{
    if s.len() == 0 {
        Seq::<u8>::empty()
    } else {
        quoted_unit(s[0]) + doubled_quotes(s.drop_first())
    }
}

/// Standard CSV quoting: quote-wrap when the field holds a comma, quote or
/// line break, doubling internal quotes; otherwise the field stands as it is.
pub open spec fn escape_csv(s: Seq<u8>) -> Seq<u8> {
    if needs_quoting(s) {
        seq![34u8] + doubled_quotes(s) + seq![34u8]
    } else {
        s
    }
}

/// The action label of a row kind, as bytes.
pub open spec fn action_name_bytes(kind: PaperJournalRowKind) -> Seq<u8> {
    encode_utf8("paper_fill"@)
}

/// The free-text action field of a row before quoting: the kind's label,
/// then `:` and the detail when the detail is non-empty.
pub open spec fn action_bytes(row: PaperJournalRow) -> Seq<u8> {
    if row.action_detail@.len() == 0 {
        action_name_bytes(row.kind)
    } else {
        action_name_bytes(row.kind) + seq![58u8] + encode_utf8(row.action_detail@)
    }
}

/// One journal row: the tick, four empty numeric columns, the quoted action,
/// four more empty columns, newline-terminated.
pub open spec fn row_bytes(row: PaperJournalRow) -> Seq<u8> {
    dec_digits(row.tick as nat) + seq![44u8, 44u8, 44u8, 44u8] + escape_csv(action_bytes(row))
        + seq![44u8, 44u8, 44u8, 44u8, 10u8]
}

/// The concatenation of a batch of rows.
pub open spec fn rows_bytes(rows: Seq<PaperJournalRow>) -> Seq<u8>
    decreases rows.len(),
{
    if rows.len() == 0 {
        Seq::<u8>::empty()
    } else {
        row_bytes(rows[0]) + rows_bytes(rows.drop_first())
    }
}

/// A byte sink for the journal. `accepted` is the bytes the sink has taken:
/// a completed write appends exactly the handed buffer and a failed write
/// takes nothing. `flushed` is the prefix of those bytes the sink has pushed
/// through to its destination: it only grows, never beyond what was
/// accepted, and a completed flush catches it up to everything accepted
/// while accepting nothing new. An unbuffered sink may treat every accepted
/// byte as already flushed.
pub trait ReplaySink {
    open spec fn accepted(&self) -> Seq<u8> {
        Seq::<u8>::empty()
    }

    open spec fn flushed(&self) -> Seq<u8> {
        Seq::<u8>::empty()
    }

    fn write_all(&mut self, bytes: &[u8]) -> (r: Result<(), std::io::Error>)
        ensures
            r is Ok ==> final(self).accepted() == old(self).accepted() + bytes@,
            r is Err ==> final(self).accepted() == old(self).accepted(),
            old(self).flushed().is_prefix_of(final(self).flushed()),
            final(self).flushed().is_prefix_of(final(self).accepted()),
    ;

    fn flush(&mut self) -> (r: Result<(), std::io::Error>)
        ensures
            final(self).accepted() == old(self).accepted(),
            r is Ok ==> final(self).flushed() == final(self).accepted(),
            old(self).flushed().is_prefix_of(final(self).flushed()),
            final(self).flushed().is_prefix_of(final(self).accepted()),
    ;
}

/// The in-memory sink: a growing byte buffer, unbuffered, so everything it
/// accepts counts as flushed.
impl ReplaySink for Vec<u8> {
    closed spec fn accepted(&self) -> Seq<u8> {
        self@
    }

    closed spec fn flushed(&self) -> Seq<u8> {
        self@
    }

    fn write_all(&mut self, bytes: &[u8]) -> (r: Result<(), std::io::Error>) {
        self.extend_from_slice(bytes);
        proof {
            assert(old(self)@.is_prefix_of(self@)) by {
                assert(self@.subrange(0, old(self)@.len() as int) =~= old(self)@);
            }
        }
        Ok(())
    }

    fn flush(&mut self) -> (r: Result<(), std::io::Error>) {
        Ok(())
    }
}

/// Journal writer over any byte sink.
pub struct ReplayCsvWriter<W: ReplaySink> {
    writer: W,
}

impl<W: ReplaySink> ReplayCsvWriter<W> {
    /// The bytes this journal's sink has accepted.
    pub closed spec fn written(&self) -> Seq<u8> {
        self.writer.accepted()
    }

    /// The bytes this journal's sink has flushed through to its destination.
    pub closed spec fn flushed(&self) -> Seq<u8> {
        self.writer.flushed()
    }

    pub fn new(writer: W) -> (r: ReplayCsvWriter<W>)
        ensures
            r.written() == writer.accepted(),
            r.flushed() == writer.flushed(),
    {
        ReplayCsvWriter { writer }
    }

    /// Hands the sink back, with everything it accepted.
    pub fn into_sink(self) -> (r: W)
        ensures
            r.accepted() == self.written(),
            r.flushed() == self.flushed(),
    {
        self.writer
    }

    /// Writes the header line; the journal is header-first.
    pub fn write_header(&mut self) -> (r: Result<(), std::io::Error>)
        ensures
            r is Ok ==> final(self).written() == old(self).written() + header_bytes(),
            r is Err ==> final(self).written() == old(self).written(),
    {
        let res = self.writer.write_all(REPLAY_CSV_HEADER.as_bytes());
        res
    }

    /// Writes and flushes the header, then records a `ReplayArtifactWritten`
    /// event; on success the sink has flushed everything it accepted — the
    /// header included — before the event enters the log, and a sink error is
    /// reported before anything reaches the log.
    pub fn write_header_and_log<L: RunLogWriter>(&mut self, tick: u64, run_log_writer: &mut L) -> (r:
        Result<(), std::io::Error>)
        ensures
            r is Ok ==> final(self).written() == old(self).written() + header_bytes()
                && final(self).flushed() == final(self).written()
                && final(run_log_writer).log() == old(run_log_writer).log().push(
                RunLogEvent {
                    tick,
                    kind: RunLogEventKind::ReplayArtifactWritten,
                    decision_latency_micros: None,
                },
            ),
            r is Err ==> final(run_log_writer).log() == old(run_log_writer).log(),
            r is Err ==> final(self).written() == old(self).written() || final(self).written()
                == old(self).written() + header_bytes(),
    {
        match self.write_header() {
            Ok(()) => {}
            Err(e) => {
                return Err(e);
            }
        }
        match self.writer.flush() {
            Ok(()) => {}
            Err(e) => {
                return Err(e);
            }
        }
        run_log_writer.write(RunLogEvent::new(tick, RunLogEventKind::ReplayArtifactWritten, None));
        Ok(())
    }

    /// Appends one formatted line per row, in order; on an error the journal
    /// still holds exactly the lines of some leading batch prefix.
    pub fn append_paper_journal_rows(&mut self, rows: &[PaperJournalRow]) -> (r: Result<
        (),
        std::io::Error,
    >)
        ensures
            r is Ok ==> final(self).written() == old(self).written() + rows_bytes(rows@),
            r is Err ==> exists|k: int|
                0 <= k <= rows@.len() && final(self).written() == old(self).written() + rows_bytes(
                    rows@.take(k),
                ),
    {
        let n = rows.len();
        let mut i: usize = 0;
        proof {
            assert(rows@.take(0) =~= Seq::<PaperJournalRow>::empty());
            assert(old(self).written() + rows_bytes(rows@.take(0)) =~= old(self).written());
        }
        while i < n
            invariant
                0 <= i <= n,
                n == rows@.len(),
                self.written() == old(self).written() + rows_bytes(rows@.take(i as int)),
            decreases n - i,
        {
            let line = paper_journal_row_bytes(&rows[i]);
            let res = self.writer.write_all(line.as_slice());
            match res {
                Ok(()) => {
                    proof {
                        lemma_rows_bytes_snoc(rows@, i as int);
                        assert(self.written() == old(self).written() + rows_bytes(
                            rows@.take(i as int + 1),
                        ));
                    }
                }
                Err(e) => {
                    return Err(e);
                }
            }
            i = i + 1;
        }
        proof {
            assert(rows@.take(n as int) =~= rows@);
        }
        Ok(())
    }
}

/// Formats one journal row as its CSV line.
pub fn paper_journal_row_bytes(row: &PaperJournalRow) -> (r: Vec<u8>)
    ensures
        r@ == row_bytes(*row),
{
    let mut out: Vec<u8> = Vec::new();
    push_dec(&mut out, row.tick);
    push_four_commas(&mut out);

    let mut action: Vec<u8> = Vec::new();
    let name = row.kind.as_replay_action();
    action.extend_from_slice(name.as_bytes());
    proof {
        reveal_strlit("paper_fill");
        vstd::string::is_ascii_spec_bytes(name);
        vstd::utf8::is_ascii_chars_encode_utf8(name@);
        assert(action@ =~= action_name_bytes(row.kind));
    }
    if !row.action_detail.as_str().is_empty() {
        action.push(58);
        action.extend_from_slice(row.action_detail.as_str().as_bytes());
        proof {
            assert(action@ =~= action_bytes(*row));
        }
    }
    let mut escaped = escape_bytes(&action);
    out.append(&mut escaped);
    push_four_commas(&mut out);
    out.push(10);
    proof {
        assert(out@ =~= row_bytes(*row));
    }
    out
}

/// Appends the four empty-column separators.
fn push_four_commas(out: &mut Vec<u8>)
    ensures
        final(out)@ == old(out)@ + seq![44u8, 44u8, 44u8, 44u8],
{
    out.push(44);
    out.push(44);
    out.push(44);
    out.push(44);
    proof {
        assert(out@ =~= old(out)@ + seq![44u8, 44u8, 44u8, 44u8]);
    }
}

/// Appends the decimal rendering of `n`.
fn push_dec(out: &mut Vec<u8>, n: u64)
    ensures
        final(out)@ == old(out)@ + dec_digits(n as nat),
    decreases n,
{
    if n >= 10 {
        push_dec(out, n / 10);
        out.push(48 + (n % 10) as u8);
        proof {
            assert(out@ =~= old(out)@ + dec_digits(n as nat));
        }
    } else {
        out.push(48 + n as u8);
        proof {
            assert(out@ =~= old(out)@ + dec_digits(n as nat));
        }
    }
}

/// Applies the CSV quoting rule to a field.
fn escape_bytes(v: &Vec<u8>) -> (r: Vec<u8>)
    ensures
        r@ == escape_csv(v@),
{
    let n = v.len();
    let mut special = false;
    let mut i: usize = 0;
    while i < n
        invariant
            0 <= i <= n,
            n == v@.len(),
            special == needs_quoting(v@.take(i as int)),
        decreases n - i,
    {
        let b = v[i];
        proof {
            assert(v@.take(i as int + 1) =~= v@.take(i as int).push(v@[i as int]));
            lemma_needs_quoting_snoc(v@.take(i as int), v@[i as int]);
        }
        if b == 44 || b == 34 || b == 10 || b == 13 {
            special = true;
        }
        i = i + 1;
    }
    proof {
        assert(v@.take(n as int) =~= v@);
    }

    if !special {
        let mut r: Vec<u8> = Vec::new();
        r.extend_from_slice(v.as_slice());
        proof {
            assert(r@ =~= v@);
        }
        return r;
    }

    let mut r: Vec<u8> = Vec::new();
    r.push(34);
    proof {
        assert(v@.take(0) =~= Seq::<u8>::empty());
        assert(r@ =~= seq![34u8] + doubled_quotes(v@.take(0)));
    }
    let mut j: usize = 0;
    while j < n
        invariant
            0 <= j <= n,
            n == v@.len(),
            r@ == seq![34u8] + doubled_quotes(v@.take(j as int)),
        decreases n - j,
    {
        let b = v[j];
        if b == 34 {
            r.push(34);
            r.push(34);
        } else {
            r.push(b);
        }
        proof {
            assert(v@.take(j as int + 1) =~= v@.take(j as int).push(v@[j as int]));
            lemma_doubled_quotes_snoc(v@.take(j as int), v@[j as int]);
            assert(r@ =~= seq![34u8] + doubled_quotes(v@.take(j as int + 1)));
        }
        j = j + 1;
    }
    r.push(34);
    proof {
        assert(v@.take(n as int) =~= v@);
        assert(r@ =~= escape_csv(v@));
    }
    r
}

/// Quoting necessity extends over one appended byte.
proof fn lemma_needs_quoting_snoc(s: Seq<u8>, b: u8)
    ensures
        needs_quoting(s.push(b)) == (needs_quoting(s) || csv_special(b)),
{
    let t = s.push(b);
    if needs_quoting(s) {
        let w = choose|i: int| 0 <= i < s.len() && csv_special(s[i]);
        assert(csv_special(t[w]));
    }
    if csv_special(b) {
        assert(csv_special(t[s.len() as int]));
    }
    if needs_quoting(t) && !csv_special(b) {
        let w = choose|i: int| 0 <= i < t.len() && csv_special(t[i]);
        assert(w < s.len());
        assert(csv_special(s[w]));
    }
}

/// The quoted body extends over one appended byte.
proof fn lemma_doubled_quotes_snoc(s: Seq<u8>, b: u8)
    ensures
        doubled_quotes(s.push(b)) == doubled_quotes(s) + quoted_unit(b),
    decreases s.len(),
{
    let t = s.push(b);
    if s.len() == 0 {
        assert(t.drop_first() =~= Seq::<u8>::empty());
        assert(doubled_quotes(t.drop_first()) == Seq::<u8>::empty());
        assert(doubled_quotes(t) == quoted_unit(t[0]) + doubled_quotes(t.drop_first()));
        assert(s =~= Seq::<u8>::empty());
        assert(doubled_quotes(s) == Seq::<u8>::empty());
        assert(doubled_quotes(t) =~= doubled_quotes(s) + quoted_unit(b));
    } else {
        assert(t.drop_first() =~= s.drop_first().push(b));
        lemma_doubled_quotes_snoc(s.drop_first(), b);
        assert(doubled_quotes(t) =~= doubled_quotes(s) + quoted_unit(b));
    }
}

/// A batch's bytes extend row by row.
proof fn lemma_rows_bytes_snoc(rows: Seq<PaperJournalRow>, i: int)
    requires
        0 <= i < rows.len(),
    ensures
        rows_bytes(rows.take(i + 1)) == rows_bytes(rows.take(i)) + row_bytes(rows[i]),
    decreases i,
{
    if i == 0 {
        assert(rows.take(1).drop_first() =~= Seq::<PaperJournalRow>::empty());
        assert(rows.take(1)[0] == rows[0]);
        assert(rows_bytes(rows.take(1).drop_first()) == Seq::<u8>::empty());
        assert(rows_bytes(rows.take(1)) == row_bytes(rows[0]) + rows_bytes(
            rows.take(1).drop_first(),
        ));
        assert(rows.take(0) =~= Seq::<PaperJournalRow>::empty());
        assert(rows_bytes(rows.take(0)) == Seq::<u8>::empty());
        assert(rows_bytes(rows.take(1)) =~= rows_bytes(rows.take(0)) + row_bytes(rows[0]));
    } else {
        lemma_rows_bytes_snoc(rows.drop_first(), i - 1);
        assert(rows.take(i + 1).drop_first() =~= rows.drop_first().take(i));
        assert(rows.take(i).drop_first() =~= rows.drop_first().take(i - 1));
        assert(rows.take(i + 1)[0] == rows[0]);
        assert(rows.take(i)[0] == rows[0]);
        assert(rows.drop_first()[i - 1] == rows[i]);
        assert(rows_bytes(rows.take(i + 1)) =~= rows_bytes(rows.take(i)) + row_bytes(rows[i]));
    }
}

} // verus!
