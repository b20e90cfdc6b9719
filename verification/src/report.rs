//! The rows that commands print.

use vstd::prelude::*;
use vstd::string::*;

use crate::agent::{status_text, AgentSnapshot};
use crate::orchestrator::kind_text;
use crate::process::{outcome_text, ProcessSnapshot};
use crate::screen::{exit_cell, exit_text};
use crate::text::{decimal, join, joined, natural, numeral, signed, texts};
use crate::time::Timestamp;

verus! {

/// What stands for a character inside a field.
pub open spec fn escaped_char(c: char) -> Seq<char> {
    if c == '\\' {
        seq!['\\', '\\']
    } else if c == '\t' {
        seq!['\\', 't']
    } else if c == '\r' {
        seq!['\\', 'r']
    } else if c == '\n' {
        seq!['\\', 'n']
    } else {
        seq![c]
    }
}

/// What stands for a text inside a field.
pub open spec fn escaped(text: Seq<char>) -> Seq<char>
    decreases text.len(),
{
    if text.len() == 0 {
        Seq::empty()
    } else {
        escaped(text.drop_last()) + escaped_char(text.last())
    }
}

/// Writes a text so that it fits into one field of one line.
pub fn escape_field(value: &str) -> (r: String)
    ensures
        r@ == escaped(value@),
{
    let mut out: String = String::new();
    for c in it: value.chars()
        invariant
            it.seq() == value@,
            out@ == escaped(value@.take(it.index() as int)),
    {
        proof {
            let n = it.index() as int;
            assert(value@.take(n + 1).drop_last() =~= value@.take(n));
        }
        let ghost before = out@;
        if c == '\\' {
            out.push('\\');
            out.push('\\');
        } else if c == '\t' {
            out.push('\\');
            out.push('t');
        } else if c == '\r' {
            out.push('\\');
            out.push('r');
        } else if c == '\n' {
            out.push('\\');
            out.push('n');
        } else {
            out.push(c);
        }
        assert(out@ =~= before + escaped_char(c));
    }
    assert(value@.take(value@.len() as int) =~= value@);
    out
}

/// Whether a text is free of what ends a field or a line.
pub open spec fn one_field(text: Seq<char>) -> bool {
    forall|i: int|
        0 <= i < text.len() ==> #[trigger] text[i] != '\t' && text[i] != '\r' && text[i] != '\n'
}

/// An escaped text fits into one field of one line.
pub proof fn escaped_texts_are_fields(text: Seq<char>)
    ensures
        one_field(escaped(text)),
    decreases text.len(),
{
    if text.len() > 0 {
        escaped_texts_are_fields(text.drop_last());
        let before = escaped(text.drop_last());
        let last = escaped_char(text.last());
        assert forall|i: int| 0 <= i < escaped(text).len() implies #[trigger] escaped(text)[i]
            != '\t' && escaped(text)[i] != '\r' && escaped(text)[i] != '\n' by {
            if i < before.len() {
                assert(escaped(text)[i] == before[i]);
            } else {
                assert(escaped(text)[i] == last[i - before.len()]);
            }
        }
    }
}

/// The text that stands at the front of an escaped one, read back one character
/// at a time.
pub open spec fn unescaped(text: Seq<char>) -> Seq<char>
    decreases text.len(),
{
    if text.len() == 0 {
        Seq::empty()
    } else if text[0] == '\\' && text.len() > 1 {
        let c = if text[1] == 't' {
            '\t'
        } else if text[1] == 'r' {
            '\r'
        } else if text[1] == 'n' {
            '\n'
        } else {
            text[1]
        };
        seq![c] + unescaped(text.skip(2))
    } else {
        seq![text[0]] + unescaped(text.skip(1))
    }
}

/// Nothing is lost by escaping: the text can be read back from its field.
pub proof fn escaped_texts_read_back(text: Seq<char>)
    ensures
        unescaped(escaped(text)) == text,
    decreases text.len(),
{
    if text.len() > 0 {
        let rest = text.skip(1);
        escaped_texts_read_back(rest);
        lemma_escaped_front(text);
        let code = escaped(text);
        let first = escaped_char(text[0]);
        assert(code == first + escaped(rest));
        assert(code.skip(first.len() as int) =~= escaped(rest));
        assert(code[0] == first[0]);
        if first.len() == 2 {
            assert(code[1] == first[1]);
        }
        assert(unescaped(code) =~= seq![text[0]] + rest);
        assert(seq![text[0]] + rest =~= text);
    }
}

proof fn lemma_escaped_front(text: Seq<char>)
    requires
        text.len() > 0,
    ensures
        escaped(text) == escaped_char(text[0]) + escaped(text.skip(1)),
    decreases text.len(),
{
    let rest = text.skip(1);
    if text.len() == 1 {
        assert(text.drop_last() =~= Seq::empty());
        assert(rest =~= Seq::empty());
        assert(escaped(text.drop_last()) =~= Seq::<char>::empty());
        assert(escaped(text) =~= escaped_char(text[0]));
        assert(escaped_char(text[0]) + escaped(rest) =~= escaped_char(text[0]));
    } else {
        lemma_escaped_front(text.drop_last());
        assert(text.drop_last().skip(1) =~= rest.drop_last());
        assert(rest.last() == text.last());
        assert(escaped(text) =~= escaped_char(text[0]) + escaped(rest));
    }
}

/// The columns of a command.
pub open spec fn process_fields(process: ProcessSnapshot, now: Timestamp) -> Seq<Seq<char>> {
    seq![
        signed(process.id as int),
        outcome_text(process.state),
        exit_text(process.state),
        numeral(process.end(now).since(process.started_at) / 1_000_000),
        yes_or_no(process.state is Acknowledged),
        kind_text(process.orchestrator.is_tmux()),
        escaped(process.orchestrator.directory()),
        escaped(process.label@),
    ]
}

/// The columns of an agent.
pub open spec fn agent_fields(agent: AgentSnapshot, now: Timestamp) -> Seq<Seq<char>> {
    seq![
        signed(agent.id as int),
        status_text(agent.status),
        yes_or_no(agent.acknowledged),
        numeral(now.since(agent.started_at) / 1_000_000),
        kind_text(agent.orchestrator.is_tmux()),
        escaped(agent.orchestrator.directory()),
        escaped(agent.kind@),
    ]
}

/// The word for a flag.
pub open spec fn yes_or_no(value: bool) -> Seq<char> {
    if value {
        "yes"@
    } else {
        "no"@
    }
}

/// Columns behind one another.
pub open spec fn row_text(fields: Seq<Seq<char>>) -> Seq<char> {
    joined(fields, "\t"@)
}

fn yes_no(value: bool) -> (r: &'static str)
    ensures
        r@ == yes_or_no(value),
{
    if value {
        "yes"
    } else {
        "no"
    }
}

/// The row of a command at a time.
pub fn format_row(process: &ProcessSnapshot, now: Timestamp) -> (r: String)
    ensures
        r@ == row_text(process_fields(*process, now)),
{
    let fields: Vec<String> = vec![
        decimal(process.id),
        process.outcome(),
        exit_cell(process),
        natural(process.elapsed(now).as_millis()),
        yes_no(process.acknowledged()).to_owned(),
        process.orchestrator.kind().to_owned(),
        escape_field(process.orchestrator.cwd()),
        escape_field(process.label.as_str()),
    ];
    assert(texts(fields@) =~= process_fields(*process, now));
    join(fields.as_slice(), "\t")
}

/// The row of an agent at a time.
pub fn format_agent_row(agent: &AgentSnapshot, now: Timestamp) -> (r: String)
    ensures
        r@ == row_text(agent_fields(*agent, now)),
{
    let fields: Vec<String> = vec![
        decimal(agent.id),
        agent.status.as_str().to_owned(),
        yes_no(agent.acknowledged).to_owned(),
        natural(agent.elapsed(now).as_millis()),
        agent.orchestrator.kind().to_owned(),
        escape_field(agent.orchestrator.cwd()),
        escape_field(agent.kind.as_str()),
    ];
    assert(texts(fields@) =~= agent_fields(*agent, now));
    join(fields.as_slice(), "\t")
}

proof fn lemma_numeral_is_field(n: nat)
    ensures
        one_field(numeral(n)),
    decreases n,
{
    if n >= 10 {
        lemma_numeral_is_field(n / 10);
    }
}

/// Each column of a command fits into one field, so that a command takes exactly
/// one line.
pub proof fn process_rows_are_single_lines(process: ProcessSnapshot, now: Timestamp, i: int)
    requires
        0 <= i < 8,
    ensures
        process_fields(process, now).len() == 8,
        one_field(process_fields(process, now)[i]),
{
    lemma_numeral_is_field(process.id as nat);
    lemma_numeral_is_field((-process.id) as nat);
    lemma_numeral_is_field(process.end(now).since(process.started_at) / 1_000_000);
    match process.state.completed() {
        Some((_, status)) => {
            lemma_numeral_is_field(status as nat);
        },
        None => {},
    }
    escaped_texts_are_fields(process.orchestrator.directory());
    escaped_texts_are_fields(process.label@);
    lemma_words();
}

/// Each column of an agent fits into one field, so that an agent takes exactly
/// one line.
pub proof fn agent_rows_are_single_lines(agent: AgentSnapshot, now: Timestamp, i: int)
    requires
        0 <= i < 7,
    ensures
        agent_fields(agent, now).len() == 7,
        one_field(agent_fields(agent, now)[i]),
{
    lemma_numeral_is_field(agent.id as nat);
    lemma_numeral_is_field((-agent.id) as nat);
    lemma_numeral_is_field(now.since(agent.started_at) / 1_000_000);
    escaped_texts_are_fields(agent.orchestrator.directory());
    escaped_texts_are_fields(agent.kind@);
    lemma_words();
}

proof fn lemma_words()
    ensures
        one_field("running"@),
        one_field("succeeded"@),
        one_field("failed/"@),
        one_field("-"@),
        one_field("yes"@),
        one_field("no"@),
        one_field("shell"@),
        one_field("tmux"@),
        one_field("idle"@),
        one_field("working"@),
        one_field("waiting"@),
        one_field("done"@),
        one_field("killed"@),
{
    reveal_strlit("running");
    reveal_strlit("succeeded");
    reveal_strlit("failed/");
    reveal_strlit("-");
    reveal_strlit("yes");
    reveal_strlit("no");
    reveal_strlit("shell");
    reveal_strlit("tmux");
    reveal_strlit("idle");
    reveal_strlit("working");
    reveal_strlit("waiting");
    reveal_strlit("done");
    reveal_strlit("killed");
}

} // verus!
