//! Server-side decision helpers: run and execution modes, the startup banner,
//! the 15-minute market filter, and bootstrap-journal row parsing.

use vstd::prelude::*;
use vstd::string::StringExecFns;

use crate::logging::PaperJournalRow;
use crate::logging::PaperJournalRowKind;
use crate::state;
use crate::text::chars_eq;
use crate::text::contains_chars;
use crate::text::contains_seq;
use crate::text::digits_val;
use crate::text::find_char;
use crate::text::find_char_exec;
use crate::text::lower_chars;
use crate::text::lower_vec;
use crate::text::parse_u64_chars;
use crate::text::parses_as_u64;
use crate::text::subrange_vec;
use crate::text::to_chars;
use crate::text::trim_bounds;
use crate::text::trim_chars;
use crate::text::unsigned_body;

verus! {

#[derive(Debug, Clone, Copy, PartialEq, Eq, Structural)]
pub enum RunMode {
    PaperLive,
    Sim,
}

/// The wire spelling of a run mode.
pub open spec fn run_mode_str(m: RunMode) -> Seq<char> {
    match m {
        RunMode::PaperLive => "paper-live"@,
        RunMode::Sim => "sim"@,
    }
}

impl RunMode {
    pub fn parse(value: &str) -> (r: Option<RunMode>)
        ensures
            r == (if value@ == "paper-live"@ {
                Some(RunMode::PaperLive)
            } else if value@ == "sim"@ {
                Some(RunMode::Sim)
            } else {
                None::<RunMode>
            }),
    {
        let v = to_chars(value);
        if chars_eq(&v, &to_chars("paper-live")) {
            Some(RunMode::PaperLive)
        } else if chars_eq(&v, &to_chars("sim")) {
            Some(RunMode::Sim)
        } else {
            None
        }
    }

    pub fn as_str(self) -> (r: &'static str)
        ensures
            r@ == run_mode_str(self),
    {
        match self {
            RunMode::PaperLive => "paper-live",
            RunMode::Sim => "sim",
        }
    }
}

#[derive(Debug, Clone, Copy, PartialEq, Eq, Structural)]
pub enum ExecutionMode {
    Paper,
    Live,
}

/// The wire spelling of an execution mode.
pub open spec fn execution_mode_str(m: ExecutionMode) -> Seq<char> {
    match m {
        ExecutionMode::Paper => "paper"@,
        ExecutionMode::Live => "live"@,
    }
}

impl ExecutionMode {
    pub fn parse(value: &str) -> (r: Option<ExecutionMode>)
        ensures
            r == (if value@ == "paper"@ {
                Some(ExecutionMode::Paper)
            } else if value@ == "live"@ {
                Some(ExecutionMode::Live)
            } else {
                None::<ExecutionMode>
            }),
    {
        let v = to_chars(value);
        if chars_eq(&v, &to_chars("paper")) {
            Some(ExecutionMode::Paper)
        } else if chars_eq(&v, &to_chars("live")) {
            Some(ExecutionMode::Live)
        } else {
            None
        }
    }

    pub fn as_str(self) -> (r: &'static str)
        ensures
            r@ == execution_mode_str(self),
    {
        match self {
            ExecutionMode::Paper => "paper",
            ExecutionMode::Live => "live",
        }
    }
}

/// Parses the two boolean spellings a feature flag accepts.
pub fn parse_bool(value: &str) -> (r: Option<bool>)
    ensures
        r == (if value@ == "true"@ {
            Some(true)
        } else if value@ == "false"@ {
            Some(false)
        } else {
            None::<bool>
        }),
{
    let v = to_chars(value);
    if chars_eq(&v, &to_chars("true")) {
        Some(true)
    } else if chars_eq(&v, &to_chars("false")) {
        Some(false)
    } else {
        None
    }
}

/// Maps the configured execution mode onto the runtime-state one.
pub fn to_state_execution_mode(mode: ExecutionMode) -> (r: state::ExecutionMode)
    ensures
        mode == ExecutionMode::Paper <==> r == state::ExecutionMode::Paper,
        mode == ExecutionMode::Live <==> r == state::ExecutionMode::Live,
{
    match mode {
        ExecutionMode::Paper => state::ExecutionMode::Paper,
        ExecutionMode::Live => state::ExecutionMode::Live,
    }
}

/// The banner printed at startup, naming the selected run mode.
pub fn startup_mode_banner(mode: RunMode) -> (r: String)
    ensures
        r@ == "lab-server startup mode: "@ + run_mode_str(mode),
{
    let mut banner = String::from_str("lab-server startup mode: ");
    banner.append(mode.as_str());
    banner
}

/// The text a market is matched against: lower-cased slug, one space,
/// lower-cased question.
pub open spec fn market_haystack(slug: Seq<char>, question: Seq<char>) -> Seq<char> {
    lower_chars(slug) + seq![' '] + lower_chars(question)
}

/// Whether slug and question describe a 15-minute bitcoin market: the
/// combined text must name the asset and one of the quarter-hour horizon
/// spellings.
pub open spec fn is_btc_15m_spec(slug: Seq<char>, question: Seq<char>) -> bool {
    let h = market_haystack(slug, question);
    (contains_seq(h, "btc"@) || contains_seq(h, "bitcoin"@)) && (contains_seq(h, "15m"@)
        || contains_seq(h, "15-min"@) || contains_seq(h, "15 min"@) || contains_seq(
        h,
        "15 minute"@,
    ) || contains_seq(h, "15-minute"@) || contains_seq(h, "15 minutes"@) || contains_seq(
        h,
        "next 15"@,
    ) || contains_seq(h, "in 15"@))
}

/// Decides whether a discovered market is the 15-minute bitcoin market the
/// paper loop tracks.
pub fn is_btc_15m_market(slug: &str, question: &str) -> (r: bool)
    ensures
        r == is_btc_15m_spec(slug@, question@),
{
    let slug_chars = to_chars(slug);
    let question_chars = to_chars(question);
    let mut hay = lower_vec(&slug_chars);
    hay.push(' ');
    let mut q_lc = lower_vec(&question_chars);
    hay.append(&mut q_lc);
    proof {
        assert(hay@ =~= market_haystack(slug@, question@));
    }

    let has_asset = contains_chars(&hay, &to_chars("btc")) || contains_chars(
        &hay,
        &to_chars("bitcoin"),
    );
    if !has_asset {
        return false;
    }

    contains_chars(&hay, &to_chars("15m")) || contains_chars(&hay, &to_chars("15-min"))
        || contains_chars(&hay, &to_chars("15 min")) || contains_chars(
        &hay,
        &to_chars("15 minute"),
    ) || contains_chars(&hay, &to_chars("15-minute")) || contains_chars(
        &hay,
        &to_chars("15 minutes"),
    ) || contains_chars(&hay, &to_chars("next 15")) || contains_chars(&hay, &to_chars("in 15"))
}

/// Whether a bootstrap journal entry is well-formed: two field separators,
/// a tick that parses as an unsigned decimal, the fill action label, and a
/// non-blank detail.
pub open spec fn bootstrap_accepts(s: Seq<char>) -> bool {
    find_char(s, '|') >= 0 && {
        let i1 = find_char(s, '|');
        let rest = s.subrange(i1 + 1, s.len() as int);
        find_char(rest, '|') >= 0 && {
            let i2 = find_char(rest, '|');
            parses_as_u64(trim_chars(s.subrange(0, i1))) && trim_chars(rest.subrange(0, i2))
                == "paper_fill"@ && trim_chars(
                rest.subrange(i2 + 1, rest.len() as int),
            ).len() > 0
        }
    }
}

/// The tick number of a well-formed bootstrap entry.
pub open spec fn bootstrap_tick(s: Seq<char>) -> int {
    digits_val(unsigned_body(trim_chars(s.subrange(0, find_char(s, '|')))))
}

/// The trimmed action detail of a well-formed bootstrap entry.
pub open spec fn bootstrap_detail(s: Seq<char>) -> Seq<char> {
    let i1 = find_char(s, '|');
    let rest = s.subrange(i1 + 1, s.len() as int);
    trim_chars(rest.subrange(find_char(rest, '|') + 1, rest.len() as int))
}

/// Parses one `tick|paper_fill|detail` bootstrap entry; the detail keeps any
/// further separators and is trimmed, and a blank detail is rejected.
pub fn parse_bootstrap_paper_journal_row(value: &str) -> (r: Option<PaperJournalRow>)
    ensures
        r is Some <==> bootstrap_accepts(value@),
        r is Some ==> r->Some_0.tick as int == bootstrap_tick(value@),
        r is Some ==> r->Some_0.kind == PaperJournalRowKind::PaperFill,
        r is Some ==> r->Some_0.action_detail@ == bootstrap_detail(value@),
{
    let chars = to_chars(value);
    let n = chars.len();
    let i1 = match find_char_exec(&chars, '|') {
        Some(i) => i,
        None => {
            return None;
        }
    };
    let rest = subrange_vec(&chars, i1 + 1, n);
    let i2 = match find_char_exec(&rest, '|') {
        Some(i) => i,
        None => {
            return None;
        }
    };

    let tick_field = subrange_vec(&chars, 0, i1);
    let tb = trim_bounds(&tick_field);
    let tick_trim = subrange_vec(&tick_field, tb.0, tb.1);
    let tick = match parse_u64_chars(&tick_trim) {
        Some(t) => t,
        None => {
            return None;
        }
    };

    let kind_field = subrange_vec(&rest, 0, i2);
    let kb = trim_bounds(&kind_field);
    let kind_trim = subrange_vec(&kind_field, kb.0, kb.1);
    if !chars_eq(&kind_trim, &to_chars("paper_fill")) {
        return None;
    }

    let detail_field = subrange_vec(&rest, i2 + 1, rest.len());
    let db = trim_bounds(&detail_field);
    if db.0 == db.1 {
        proof {
            assert(bootstrap_detail(value@).len() == 0);
        }
        return None;
    }

    let base = i1 + 1 + i2 + 1;
    let detail_str = value.substring_char(base + db.0, base + db.1);
    let action_detail = detail_str.to_owned();
    proof {
        assert(detail_field@.subrange(db.0 as int, db.1 as int) =~= value@.subrange(
            base + db.0,
            base + db.1,
        ));
        assert(action_detail@ == bootstrap_detail(value@));
        assert(bootstrap_accepts(value@));
    }
    Some(PaperJournalRow { tick, kind: PaperJournalRowKind::PaperFill, action_detail })
}

} // verus!
