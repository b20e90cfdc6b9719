//! How numbers, times, rows and errors read.

use vstd::prelude::*;
use vstd::string::*;

use crate::agent::{AgentSnapshot, AgentStatus};
use crate::error::{reported, Error, ErrorView, Failure, FailureCode, NavigationError};
use crate::orchestrator::OrchestratorSnapshot;
use crate::process::{ProcessSnapshot, ProcessState};
use crate::report::{agent_fields, escaped, process_fields, row_text};
use crate::text::{
    blank, joined, leading_white, numeral, signed, trimmed, two_digits, white,
    without_trailing_white,
};
use crate::time::{clock_text, millis_of, moment, Timestamp};

verus! {

/// The number that a decimal numeral stands for.
pub open spec fn value(digits: Seq<char>) -> int
    decreases digits.len(),
{
    if digits.len() == 0 {
        0
    } else {
        value(digits.drop_last()) * 10 + (digits.last() as int - '0' as int)
    }
}

/// Whether a text is made of decimal digits.
pub open spec fn all_digits(text: Seq<char>) -> bool {
    text.len() > 0 && forall|k: int| 0 <= k < text.len() ==> '0' <= #[trigger] text[k] && text[k]
        <= '9'
}

/// A numeral is made of digits, stands for its number, and begins with a zero only
/// where it is nothing else.
pub proof fn numerals_read_back(n: nat)
    ensures
        all_digits(numeral(n)),
        value(numeral(n)) == n,
        numeral(n)[0] == '0' <==> n == 0,
        n < 10 <==> numeral(n).len() == 1,
    decreases n,
{
    reveal_with_fuel(value, 2);
    if n >= 10 {
        numerals_read_back(n / 10);
        let before = numeral(n / 10);
        assert(numeral(n).drop_last() =~= before);
        assert(numeral(n)[0] == before[0]);
        assert forall|k: int| 0 <= k < numeral(n).len() implies '0' <= #[trigger] numeral(n)[k]
            && numeral(n)[k] <= '9' by {
            if k < before.len() {
                assert(numeral(n)[k] == before[k]);
            }
        }
    } else {
        assert(numeral(n).drop_last() =~= Seq::empty());
    }
}

/// The sign of a number is written where it is negative, and only there.
pub proof fn signs_are_written(n: int)
    ensures
        n >= 0 ==> signed(n) == numeral(n as nat),
        n < 0 ==> signed(n) == seq!['-'] + numeral((-n) as nat),
        n < 0 <==> signed(n)[0] == '-',
{
    numerals_read_back(n as nat);
}

/// A padded numeral has two digits below a hundred, and stands for the same number.
pub proof fn padding_keeps_the_number(n: nat)
    requires
        n < 100,
    ensures
        two_digits(n).len() == 2,
        all_digits(two_digits(n)),
        value(two_digits(n)) == n,
{
    numerals_read_back(n);
    reveal_with_fuel(value, 3);
    if n < 10 {
        let text = seq!['0'] + numeral(n);
        assert(text.drop_last() =~= seq!['0']);
        assert(seq!['0'].drop_last() =~= Seq::empty());
        assert(text.last() == numeral(n)[0]);
        assert(numeral(n).drop_last() =~= Seq::empty());
    } else {
        numerals_read_back(n / 10);
        assert(numeral(n / 10).len() == 1);
    }
}

/// A length of time is written as hours, minutes and seconds, each where it is needed,
/// and the parts behind the first with two digits.
pub proof fn clocks_tell_hours_minutes_and_seconds(hours: nat, minutes: nat, seconds: nat)
    requires
        minutes < 60,
        seconds < 60,
    ensures
        hours > 0 ==> clock_text(hours * 3600 + minutes * 60 + seconds) == numeral(hours) + "h"@
            + two_digits(minutes) + "m"@ + two_digits(seconds) + "s"@,
        minutes > 0 ==> clock_text(minutes * 60 + seconds) == numeral(minutes) + "m"@ + two_digits(
            seconds,
        ) + "s"@,
        clock_text(seconds) == numeral(seconds) + "s"@,
{
}

/// Texts are joined by one separator between neighbours, and by none elsewhere.
pub proof fn joined_texts_are_parted(
    left: Seq<Seq<char>>,
    right: Seq<Seq<char>>,
    one: Seq<char>,
    separator: Seq<char>,
)
    ensures
        joined(seq![one], separator) == one,
        left.len() > 0 && right.len() > 0 ==> joined(left + right, separator) == joined(
            left,
            separator,
        ) + separator + joined(right, separator),
        joined(Seq::empty(), separator).len() == 0,
    decreases right.len(),
{
    if left.len() > 0 && right.len() > 0 {
        let whole = left + right;
        assert(whole.drop_last() =~= left + right.drop_last());
        assert(whole.last() == right.last());
        if right.len() == 1 {
            assert(right.drop_last() =~= Seq::empty());
            assert(left + right.drop_last() =~= left);
        } else {
            joined_texts_are_parted(left, right.drop_last(), one, separator);
            assert(joined(whole, separator) =~= joined(left, separator) + separator + joined(
                right,
                separator,
            ));
        }
    }
}

/// A field is escaped character by character: backslash, tab, carriage return and line
/// feed are each written as a backslash and a letter or a second backslash, and every
/// other character is written as it is.
pub proof fn fields_are_escaped_by_character(left: Seq<char>, c: char)
    ensures
        escaped(Seq::empty()).len() == 0,
        escaped(left.push(c)) == escaped(left) + (if c == '\\' {
            seq!['\\', '\\']
        } else if c == '\t' {
            seq!['\\', 't']
        } else if c == '\r' {
            seq!['\\', 'r']
        } else if c == '\n' {
            seq!['\\', 'n']
        } else {
            seq![c]
        }),
{
    assert(left.push(c).drop_last() =~= left);
}

/// The row of a command: its number, how it came out, its exit status, how many
/// milliseconds it took, whether it is acknowledged, its host, its directory and its
/// label, parted by tabs.
pub proof fn rows_of_commands_tell_everything(process: ProcessSnapshot, now: Timestamp)
    ensures
        ({
            let fields = process_fields(process, now);
            let (outcome, exit, end, acknowledged) = match process.state {
                ProcessState::Running => ("running"@, "-"@, now, "no"@),
                ProcessState::Finished { finished_at, exit_status } => (
                    if exit_status == 0 {
                        "succeeded"@
                    } else {
                        "failed/"@ + numeral(exit_status as nat)
                    },
                    numeral(exit_status as nat),
                    finished_at,
                    "no"@,
                ),
                ProcessState::Acknowledged { finished_at, exit_status } => (
                    if exit_status == 0 {
                        "succeeded"@
                    } else {
                        "failed/"@ + numeral(exit_status as nat)
                    },
                    numeral(exit_status as nat),
                    finished_at,
                    "yes"@,
                ),
            };
            let took = if end.nanos < process.started_at.nanos {
                0
            } else {
                (end.nanos - process.started_at.nanos) / 1_000_000
            };
            let (host, cwd) = match process.orchestrator {
                OrchestratorSnapshot::Shell { cwd } => ("shell"@, cwd@),
                OrchestratorSnapshot::Tmux { cwd, .. } => ("tmux"@, cwd@),
            };
            &&& fields.len() == 8
            &&& fields[0] == signed(process.id as int)
            &&& fields[1] == outcome
            &&& fields[2] == exit
            &&& fields[3] == numeral(took as nat)
            &&& fields[4] == acknowledged
            &&& fields[5] == host
            &&& fields[6] == escaped(cwd)
            &&& fields[7] == escaped(process.label@)
            &&& row_text(fields) == joined(fields, seq!['\t'])
        }),
{
    reveal_strlit("\t");
    assert("\t"@ =~= seq!['\t']);
}

/// The row of an agent: its number, its status, whether it is acknowledged, how many
/// milliseconds it has been there, its host, its directory and its kind, parted by
/// tabs.
pub proof fn rows_of_agents_tell_everything(agent: AgentSnapshot, now: Timestamp)
    ensures
        ({
            let fields = agent_fields(agent, now);
            let took = if now.nanos < agent.started_at.nanos {
                0
            } else {
                (now.nanos - agent.started_at.nanos) / 1_000_000
            };
            let (host, cwd) = match agent.orchestrator {
                OrchestratorSnapshot::Shell { cwd } => ("shell"@, cwd@),
                OrchestratorSnapshot::Tmux { cwd, .. } => ("tmux"@, cwd@),
            };
            &&& fields.len() == 7
            &&& fields[0] == signed(agent.id as int)
            &&& fields[1] == match agent.status {
                AgentStatus::Idle => "idle"@,
                AgentStatus::Working => "working"@,
                AgentStatus::Waiting => "waiting"@,
                AgentStatus::Done => "done"@,
                AgentStatus::Killed => "killed"@,
            }
            &&& fields[2] == if agent.acknowledged {
                "yes"@
            } else {
                "no"@
            }
            &&& fields[3] == numeral(took as nat)
            &&& fields[4] == host
            &&& fields[5] == escaped(cwd)
            &&& fields[6] == escaped(agent.kind@)
            &&& row_text(fields) == joined(fields, seq!['\t'])
        }),
{
    reveal_strlit("\t");
    assert("\t"@ =~= seq!['\t']);
}

proof fn lemma_leading_white(text: Seq<char>)
    ensures
        0 <= leading_white(text) <= text.len(),
        blank(text.take(leading_white(text))),
        leading_white(text) < text.len() ==> !white(text[leading_white(text)]),
    decreases text.len(),
{
    if text.len() > 0 && white(text[0]) {
        let rest = text.drop_first();
        lemma_leading_white(rest);
        let n = leading_white(rest);
        assert forall|k: int| 0 <= k < n + 1 implies white(
            #[trigger] text.take(n + 1)[k],
        ) by {
            if k > 0 {
                assert(text.take(n + 1)[k] == rest.take(n)[k - 1]);
            }
        }
    }
}

proof fn lemma_trailing_white(text: Seq<char>)
    ensures
        without_trailing_white(text).len() <= text.len(),
        without_trailing_white(text) == text.take(without_trailing_white(text).len() as int),
        blank(text.skip(without_trailing_white(text).len() as int)),
        without_trailing_white(text).len() > 0 ==> !white(without_trailing_white(text).last()),
    decreases text.len(),
{
    if text.len() > 0 && white(text.last()) {
        let rest = text.drop_last();
        lemma_trailing_white(rest);
        let n = without_trailing_white(rest).len() as int;
        assert(rest.take(n) =~= text.take(n));
        assert forall|k: int| 0 <= k < text.skip(n).len() implies white(
            #[trigger] text.skip(n)[k],
        ) by {
            if k < rest.skip(n).len() {
                assert(text.skip(n)[k] == rest.skip(n)[k]);
            }
        }
    } else {
        assert(text.take(text.len() as int) =~= text);
        assert(text.skip(text.len() as int).len() == 0);
    }
}

/// A trimmed text is what is left between the white space at its ends, and has none at
/// its own.
pub proof fn trimming_takes_white_space_only(text: Seq<char>) -> (r: (Seq<char>, Seq<char>))
    ensures
        text == r.0 + trimmed(text) + r.1,
        blank(r.0),
        blank(r.1),
        trimmed(text).len() > 0 ==> !white(trimmed(text)[0]) && !white(trimmed(text).last()),
{
    lemma_leading_white(text);
    let start = leading_white(text);
    let rest = text.skip(start);
    lemma_trailing_white(rest);
    let n = trimmed(text).len() as int;
    if n > 0 {
        assert(trimmed(text)[0] == rest.take(n)[0]);
        assert(rest[0] == text[start]);
    }
    assert(text =~= text.take(start) + rest.take(n) + rest.skip(n));
    (text.take(start), rest.skip(n))
}

/// White space is the space, what moves on to another place or line, and the wider and
/// narrower spaces; letters, digits and signs are not.
pub proof fn white_space_is_told_apart(c: char)
    ensures
        c == ' ' || c == '\t' || c == '\n' || c == '\r' || c == '\x0b' || c == '\x0c' ==> white(c),
        c == '\u{85}' || c == '\u{a0}' || c == '\u{1680}' || c == '\u{2028}' || c == '\u{2029}' || c
            == '\u{202f}' || c == '\u{205f}' || c == '\u{3000}' ==> white(c),
        '\u{2000}' <= c && c <= '\u{200a}' ==> white(c),
        '!' <= c && c <= '~' ==> !white(c),
        c < '\t' ==> !white(c),
        '\u{3000}' < c ==> !white(c),
        '\u{a0}' < c && c < '\u{1680}' ==> !white(c),
{
}

/// A point in time is kept in whole milliseconds, from the epoch on, and is at most one
/// millisecond later than what is read back.
pub proof fn times_are_kept_in_milliseconds(time: Timestamp)
    requires
        0 <= time.nanos <= 1_000_000 * (i64::MAX as int),
    ensures
        millis_of(time) * 1_000_000 <= time.nanos < (millis_of(time) + 1) * 1_000_000,
        moment(millis_of(time)).nanos == millis_of(time) * 1_000_000,
{
}

/// What lies between two points in time leads from the earlier to the later; nothing
/// lies between a point and an earlier one.
pub proof fn spans_lead_from_one_time_to_another(now: Timestamp, then: Timestamp)
    ensures
        then.nanos <= now.nanos ==> then.nanos + now.since(then) == now.nanos,
        now.nanos <= then.nanos ==> now.since(then) == 0,
{
}

/// How errors read.
pub proof fn errors_say_what_went_wrong(
    id: i64,
    text: String,
    from: AgentStatus,
    to: AgentStatus,
)
    ensures
        Error::NotFound(id).wording() == "no process with id "@ + signed(id as int),
        Error::Invalid(text).wording() == text@,
        Error::Environment(text).wording() == text@,
        Error::Incompatible(text).wording() == "incompatible storage: "@ + text@,
        Error::AlreadyFinished(id).wording() == "process "@ + signed(id as int)
            + " is already finished"@,
        Error::AlreadyAcknowledged(id).wording() == "process "@ + signed(id as int)
            + " is already acknowledged"@,
        Error::StillRunning(id).wording() == "process "@ + signed(id as int) + " is still running"@,
        Error::WrongStorage(id).wording() == "process "@ + signed(id as int)
            + " belongs to different storage"@,
        Error::AgentNotFound(id).wording() == "no agent with id "@ + signed(id as int),
        Error::AgentNotDone(id).wording() == "agent "@ + signed(id as int) + " is not done"@,
        Error::AgentWrongStorage(id).wording() == "agent "@ + signed(id as int)
            + " belongs to different storage"@,
        Error::ReadOnly.wording() == "storage is read-only"@,
        Error::CorruptData(text).wording() == "corrupt data: "@ + text@,
        Error::Busy(text).wording() == "storage unavailable: "@ + text@,
        Error::Database(text).wording() == "database error: "@ + text@,
        Error::Navigation(NavigationError::Unavailable(text)).wording() == text@,
        Error::Navigation(NavigationError::Invalid(text)).wording() == text@,
        Error::Navigation(NavigationError::Missing(text)).wording() == text@,
        Error::Navigation(NavigationError::Failed(text)).wording() == text@,
        (Error::InvalidAgentTransition { id, from, to }).wording() == "agent "@ + signed(id as int)
            + " cannot transition from "@ + (match from {
            AgentStatus::Idle => "idle"@,
            AgentStatus::Working => "working"@,
            AgentStatus::Waiting => "waiting"@,
            AgentStatus::Done => "done"@,
            AgentStatus::Killed => "killed"@,
        }) + " to "@ + (match to {
            AgentStatus::Idle => "idle"@,
            AgentStatus::Working => "working"@,
            AgentStatus::Waiting => "waiting"@,
            AgentStatus::Done => "done"@,
            AgentStatus::Killed => "killed"@,
        }),
{
}

/// What failures of the database are taken for: a busy or locked one can be tried again,
/// one that is damaged or none at all is incompatible, and one that cannot be written
/// is read-only.
pub proof fn failures_are_told_apart(failure: Failure)
    ensures
        reported(failure) is Busy <==> failure.code == FailureCode::Busy || failure.code
            == FailureCode::Locked,
        reported(failure) is Incompatible <==> failure.code == FailureCode::NotADatabase
            || failure.code == FailureCode::Corrupt,
        reported(failure) is ReadOnly <==> failure.code == FailureCode::ReadOnly,
        reported(failure) is Database <==> failure.code == FailureCode::Other,
        match reported(failure) {
            ErrorView::Busy(text) => text == failure.detail@,
            ErrorView::Incompatible(text) => text == failure.detail@,
            ErrorView::Database(text) => text == failure.detail@,
            _ => true,
        },
{
}

} // verus!
