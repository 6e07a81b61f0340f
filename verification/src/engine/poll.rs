//! Following a task's progress log: which line is new, what it says, and how the
//! task ended when the helper daemon is gone.

use vstd::prelude::*;
use vstd::string::*;
use crate::engine::PollOutcome;
use crate::text::{opt_view, chars_of, eq_str, lines, last_line_bounds, sub_string};

verus! {

/// What the app read from one JSON line of a progress log: the `stage` and `error`
/// fields when they are strings, and the byte counters when they are unsigned
/// integers.
#[derive(Debug, Clone)]
pub struct LogRecord {
    pub stage: Option<String>,
    pub error: Option<String>,
    pub bytes_done: Option<u64>,
    pub bytes_total: Option<u64>,
}

/// What to do after looking at a log line.
#[derive(Debug)]
pub enum PollStep {
    /// Report progress at this stage with these byte counters, and keep polling.
    Progress { stage: String, bytes_done: u64, bytes_total: u64 },
    /// The task is over with this result.
    Finished(Result<PollOutcome, String>),
    /// Nothing to report; keep polling.
    Continue,
}

/// The message for a failure the log gives no text for.
pub open spec fn unknown_error() -> Seq<char> {
    "未知错误"@
}

/// The message when the helper daemon is gone and the log shows no outcome.
pub open spec fn daemon_gone_message() -> Seq<char> {
    "权限助手进程已退出，任务异常终止"@
}

/// The outcome a record announces, if it announces one: `done`, `cancelled`, or
/// `error` with its message (or a generic one).
pub open spec fn announced_outcome(r: LogRecord) -> Option<Result<PollOutcome, Seq<char>>> {
    match r.stage {
        Some(s) => if s@ == "done"@ {
            Some(Ok(PollOutcome::Done))
        } else if s@ == "cancelled"@ {
            Some(Ok(PollOutcome::Cancelled))
        } else if s@ == "error"@ {
            Some(
                Err(
                    match r.error {
                        Some(e) => e@,
                        None => unknown_error(),
                    },
                ),
            )
        } else {
            None
        },
        None => None,
    }
}

pub open spec fn result_view(r: Result<PollOutcome, String>) -> Result<PollOutcome, Seq<char>> {
    match r {
        Ok(o) => Ok(o),
        Err(e) => Err(e@),
    }
}

/// The last line of a log's text, as `str::lines().last()` gives it.
pub open spec fn last_line(content: Seq<char>) -> Option<Seq<char>> {
    let ls = lines(content);
    if ls.len() == 0 {
        None
    } else {
        Some(ls.last())
    }
}

/// The last line of a log's text.
pub fn last_line_of(content: &str) -> (r: Option<String>)
    ensures
        opt_view(r) == last_line(content@),
{
    let cs = chars_of(content);
    match last_line_bounds(&cs) {
        None => None,
        Some((a, b)) => Some(sub_string(content, a, b)),
    }
}

/// The last line of the log seen so far.
pub struct PollState {
    pub last_line: Option<String>,
}

impl PollState {
    pub fn new() -> (s: PollState)
        ensures
            s.last_line is None,
    {
        PollState { last_line: None }
    }

    /// Looks at the log's text (`None` when it could not be read) and returns its
    /// last line when that differs from the last line seen before, which it then
    /// remembers.
    pub fn observe(&mut self, content: &Option<String>) -> (r: Option<String>)
        ensures
            match content {
                Some(c) => match last_line(c@) {
                    Some(l) => if opt_view(old(self).last_line) == Some(l) {
                        r is None && opt_view(final(self).last_line) == opt_view(
                            old(self).last_line,
                        )
                    } else {
                        opt_view(r) == Some(l) && opt_view(final(self).last_line) == Some(l)
                    },
                    None => r is None && opt_view(final(self).last_line) == opt_view(
                        old(self).last_line,
                    ),
                },
                None => r is None && opt_view(final(self).last_line) == opt_view(
                    old(self).last_line,
                ),
            },
    {
        let c = match content {
            Some(c) => c,
            None => {
                return None;
            },
        };
        let line = match last_line_of(c.as_str()) {
            Some(l) => l,
            None => {
                return None;
            },
        };
        let same = match &self.last_line {
            Some(prev) => eq_str(prev.as_str(), line.as_str()),
            None => false,
        };
        if same {
            None
        } else {
            self.last_line = Some(line.clone());
            Some(line)
        }
    }
}

/// What a line's record calls for while the daemon runs: the outcome it
/// announces, progress for any other stage, or nothing when it has no stage or
/// could not be parsed.
pub fn classify(record: &Option<LogRecord>) -> (r: PollStep)
    ensures
        match record {
            None => r is Continue,
            Some(rec) => match announced_outcome(*rec) {
                Some(o) => r matches PollStep::Finished(x) && result_view(x) == o,
                None => match rec.stage {
                    Some(s) => r matches PollStep::Progress { stage, bytes_done, bytes_total }
                        && stage@ == s@ && bytes_done == (match rec.bytes_done {
                        Some(n) => n,
                        None => 0,
                    }) && bytes_total == (match rec.bytes_total {
                        Some(n) => n,
                        None => 0,
                    }),
                    None => r is Continue,
                },
            },
        },
{
    let rec = match record {
        Some(r) => r,
        None => {
            return PollStep::Continue;
        },
    };
    match announced(rec) {
        Some(x) => PollStep::Finished(x),
        None => match &rec.stage {
            Some(s) => PollStep::Progress {
                stage: s.clone(),
                bytes_done: match rec.bytes_done {
                    Some(n) => n,
                    None => 0,
                },
                bytes_total: match rec.bytes_total {
                    Some(n) => n,
                    None => 0,
                },
            },
            None => PollStep::Continue,
        },
    }
}

/// The outcome a record announces, if any.
fn announced(rec: &LogRecord) -> (r: Option<Result<PollOutcome, String>>)
    ensures
        match announced_outcome(*rec) {
            Some(o) => r matches Some(x) && result_view(x) == o,
            None => r is None,
        },
{
    match &rec.stage {
        Some(s) => {
            if eq_str(s.as_str(), "done") {
                Some(Ok(PollOutcome::Done))
            } else if eq_str(s.as_str(), "cancelled") {
                Some(Ok(PollOutcome::Cancelled))
            } else if eq_str(s.as_str(), "error") {
                Some(
                    Err(
                        match &rec.error {
                            Some(e) => e.clone(),
                            None => String::from_str("未知错误"),
                        },
                    ),
                )
            } else {
                None
            }
        },
        None => None,
    }
}

/// How a task ended once the helper daemon is gone, from the record of the log's
/// last line (`None` when there is none or it could not be parsed): the outcome
/// it announces, or else an error saying the daemon quit.
pub fn verdict_after_exit(record: &Option<LogRecord>) -> (r: Result<PollOutcome, String>)
    ensures
        result_view(r) == exit_verdict(*record),
{
    match record {
        Some(rec) => match announced(rec) {
            Some(x) => x,
            None => Err(String::from_str("权限助手进程已退出，任务异常终止")),
        },
        None => Err(String::from_str("权限助手进程已退出，任务异常终止")),
    }
}

/// How a task ended once the helper daemon is gone: the outcome the last line
/// announces, or else an error saying the daemon quit.
pub open spec fn exit_verdict(record: Option<LogRecord>) -> Result<PollOutcome, Seq<char>> {
    match record {
        Some(rec) => match announced_outcome(rec) {
            Some(o) => o,
            None => Err(daemon_gone_message()),
        },
        None => Err(daemon_gone_message()),
    }
}

/// An outcome the log announces is the task's result whether it is read while the
/// daemon runs or after the daemon is gone; and once the daemon is gone, a task
/// only succeeds or counts as cancelled when its log says so.
pub proof fn law_announced_outcome_is_final(record: Option<LogRecord>)
    ensures
        forall|rec: LogRecord|
            record == Some(rec) && #[trigger] announced_outcome(rec) is Some ==> exit_verdict(record)
                == announced_outcome(rec)->0,
        exit_verdict(record) is Ok ==> (record matches Some(rec) && announced_outcome(rec)
            == Some(exit_verdict(record))),
{
}

/// A log line ends the task only through its stage: `done` and `cancelled` end it
/// so, `error` ends it with the line's error text (or a generic one), and any other
/// stage, or none, ends nothing, whatever the byte counters say. Two lines with
/// the same stage and error text announce the same.
pub proof fn law_only_the_stage_ends_a_task(r: LogRecord, other: LogRecord)
    ensures
        announced_outcome(r) is Some ==> (r.stage matches Some(s) && (s@ == "done"@ || s@
            == "cancelled"@ || s@ == "error"@)),
        r.stage matches Some(s) && s@ == "done"@ ==> announced_outcome(r) == Some(
            Ok::<PollOutcome, Seq<char>>(PollOutcome::Done),
        ),
        r.stage matches Some(s) && s@ == "cancelled"@ ==> announced_outcome(r) == Some(
            Ok::<PollOutcome, Seq<char>>(PollOutcome::Cancelled),
        ),
        r.stage matches Some(s) && s@ == "error"@ ==> (r.error matches Some(e) ==> announced_outcome(r)
            == Some(Err::<PollOutcome, Seq<char>>(e@))),
        r.stage matches Some(s) && s@ == "error"@ ==> (r.error is None ==> announced_outcome(r)
            == Some(Err::<PollOutcome, Seq<char>>("未知错误"@))),
        opt_view(r.stage) == opt_view(other.stage) && opt_view(r.error) == opt_view(other.error)
            ==> announced_outcome(r) == announced_outcome(other),
{
    reveal_strlit("done");
    reveal_strlit("cancelled");
    reveal_strlit("error");
    assert("cancelled"@ != "done"@) by {
        assert("cancelled"@.len() != "done"@.len());
    }
    assert("error"@ != "done"@) by {
        assert("error"@.len() != "done"@.len());
    }
    assert("error"@ != "cancelled"@) by {
        assert("error"@.len() != "cancelled"@.len());
    }
}

} // verus!
