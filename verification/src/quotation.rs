//! What quotes, escapes, parentheses and operators make of a command line, and what a
//! tracked line begins with.

use vstd::prelude::*;
use vstd::string::*;

use crate::command_line::{
    chained, lemma_backslashes_in_first, lemma_scan_second, literal_word,
    runs_in_foreground, scan_from, scan_start, scan_step, skip_space, starts_tracked, trackable,
    tracked_at, word_end, Quote, Scan,
};

verus! {

/// The state of reading a line inside of a kind of quoting, with nothing escaped.
pub open spec fn inside(quote: Quote, depth: nat) -> Scan {
    Scan { quote, escaped: false, depth }
}

/// A backslash takes the character behind it out of play, whatever that is: inside of
/// double quotes, of backticks, of a dollar quotation and outside of all quotes. Inside
/// of single quotes it is a character like others.
pub proof fn escapes_skip_a_character(line: Seq<char>, i: int, quote: Quote, depth: nat)
    requires
        0 <= i < line.len(),
        line[i] == '\\',
    ensures
        quote != Quote::Single && i + 1 < line.len() ==> scan_from(line, i, inside(quote, depth))
            == scan_from(line, i + 2, inside(quote, depth)),
        quote == Quote::Single ==> scan_from(line, i, inside(quote, depth)) == scan_from(
            line,
            i + 1,
            inside(quote, depth),
        ),
{
    reveal_with_fuel(scan_from, 3);
}

/// A quotation is closed by the character that opened it, and by no other.
pub proof fn quotations_are_closed_by_their_own_quote(
    line: Seq<char>,
    i: int,
    quote: Quote,
    depth: nat,
)
    requires
        0 <= i < line.len(),
        quote != Quote::Plain,
        line[i] != '\\' || quote == Quote::Single,
    ensures
        ({
            let closes = match quote {
                Quote::Double => line[i] == '"',
                Quote::Backtick => line[i] == '`',
                _ => line[i] == '\'',
            };
            scan_from(line, i, inside(quote, depth)) == if closes {
                scan_from(line, i + 1, inside(Quote::Plain, depth))
            } else {
                scan_from(line, i + 1, inside(quote, depth))
            }
        }),
{
}

/// What opens a quotation outside of all others: a double quote, a backtick, and a
/// single quote, which is that of a dollar quotation where a dollar sign stands before
/// it that is not escaped itself.
pub proof fn quotations_are_opened(line: Seq<char>, i: int, depth: nat)
    requires
        0 <= i < line.len(),
    ensures
        line[i] == '"' ==> scan_from(line, i, inside(Quote::Plain, depth)) == scan_from(
            line,
            i + 1,
            inside(Quote::Double, depth),
        ),
        line[i] == '`' ==> scan_from(line, i, inside(Quote::Plain, depth)) == scan_from(
            line,
            i + 1,
            inside(Quote::Backtick, depth),
        ),
        line[i] == '\'' && (i == 0 || line[i - 1] != '$') ==> scan_from(
            line,
            i,
            inside(Quote::Plain, depth),
        ) == scan_from(line, i + 1, inside(Quote::Single, depth)),
        line[i] == '\'' && i > 0 && line[i - 1] == '$' && (i == 1 || line[i - 2] != '\\')
            ==> scan_from(line, i, inside(Quote::Plain, depth)) == scan_from(
            line,
            i + 1,
            inside(Quote::AnsiC, depth),
        ),
        line[i] == '\'' && i > 1 && line[i - 1] == '$' && line[i - 2] == '\\' && (i == 2 || line[i
            - 3] != '\\') ==> scan_from(line, i, inside(Quote::Plain, depth)) == scan_from(
            line,
            i + 1,
            inside(Quote::Single, depth),
        ),
{
    reveal_with_fuel(crate::command_line::backslashes_before, 3);
}

/// Parentheses outside of quotes are counted, and one that closes nothing spoils the
/// line.
pub proof fn parentheses_are_counted(line: Seq<char>, i: int, depth: nat)
    requires
        0 <= i < line.len(),
    ensures
        line[i] == '(' ==> scan_from(line, i, inside(Quote::Plain, depth)) == scan_from(
            line,
            i + 1,
            inside(Quote::Plain, depth + 1),
        ),
        line[i] == ')' ==> scan_from(line, i, inside(Quote::Plain, depth + 1)) == scan_from(
            line,
            i + 1,
            inside(Quote::Plain, depth),
        ),
        line[i] == ')' ==> scan_from(line, i, inside(Quote::Plain, 0)) is None,
{
}

/// An ampersand outside of quotes spoils the line unless it is one of two, belongs to a
/// redirection, or stands in parentheses.
pub proof fn ampersands_are_judged(line: Seq<char>, i: int, depth: nat)
    requires
        0 <= i < line.len(),
        line[i] == '&',
    ensures
        ({
            let before = if i > 0 {
                line[i - 1]
            } else {
                ' '
            };
            let behind = if i + 1 < line.len() {
                line[i + 1]
            } else {
                ' '
            };
            scan_from(line, i, inside(Quote::Plain, depth)) == if behind == '&' {
                scan_from(line, i + 2, inside(Quote::Plain, depth))
            } else if before == '<' || before == '>' || behind == '>' || depth > 0 {
                scan_from(line, i + 1, inside(Quote::Plain, depth))
            } else {
                None
            }
        }),
{
}

/// All other characters outside of quotes are of no consequence.
pub proof fn other_characters_are_read_over(line: Seq<char>, i: int, depth: nat)
    requires
        0 <= i < line.len(),
        ordinary(line[i]),
    ensures
        scan_from(line, i, inside(Quote::Plain, depth)) == scan_from(
            line,
            i + 1,
            inside(Quote::Plain, depth),
        ),
{
}

/// At its end a line has to have closed whatever it opened.
pub proof fn lines_have_to_close_what_they_open(line: Seq<char>)
    ensures
        runs_in_foreground(line) <==> scan_from(line, 0, inside(Quote::Plain, 0)) == Some(
            inside(Quote::Plain, 0),
        ),
        forall|scan: Scan| #[trigger] scan_from(line, line.len() as int, scan) == Some(scan),
{
}

/// The characters that neither quote, escape, nor group, nor run anything.
pub open spec fn ordinary(c: char) -> bool {
    c != '\'' && c != '"' && c != '`' && c != '\\' && c != '(' && c != ')' && c != '&'
}

/// Whether all characters of a text are ordinary.
pub open spec fn all_ordinary(text: Seq<char>) -> bool {
    forall|k: int| 0 <= k < text.len() ==> ordinary(#[trigger] text[k])
}

/// Whether a text can stand between two quotes of a kind that knows escapes: each quote
/// in it is escaped, and so is each backslash, or it escapes something else.
pub open spec fn quotable(text: Seq<char>, quote: char) -> bool
    decreases text.len(),
{
    if text.len() == 0 {
        true
    } else if text[0] == '\\' {
        text.len() > 1 && quotable(text.skip(2), quote)
    } else {
        text[0] != quote && quotable(text.skip(1), quote)
    }
}

proof fn lemma_ordinary_run(line: Seq<char>, i: int, j: int, depth: nat)
    requires
        0 <= i <= j <= line.len(),
        forall|k: int| i <= k < j ==> ordinary(#[trigger] line[k]),
    ensures
        scan_from(line, i, inside(Quote::Plain, depth)) == scan_from(
            line,
            j,
            inside(Quote::Plain, depth),
        ),
    decreases j - i,
{
    if i < j {
        other_characters_are_read_over(line, i, depth);
        lemma_ordinary_run(line, i + 1, j, depth);
    }
}

proof fn lemma_quoted_run(line: Seq<char>, i: int, j: int, quote: Quote, mark: char)
    requires
        0 <= i <= j <= line.len(),
        quote == Quote::Double && mark == '"' || quote == Quote::Backtick && mark == '`' || quote
            == Quote::AnsiC && mark == '\'',
        quotable(line.subrange(i, j), mark),
    ensures
        scan_from(line, i, inside(quote, 0)) == scan_from(line, j, inside(quote, 0)),
    decreases j - i,
{
    let text = line.subrange(i, j);
    if i < j {
        assert(text[0] == line[i]);
        if line[i] == '\\' {
            escapes_skip_a_character(line, i, quote, 0);
            assert(text.skip(2) =~= line.subrange(i + 2, j));
            lemma_quoted_run(line, i + 2, j, quote, mark);
        } else {
            quotations_are_closed_by_their_own_quote(line, i, quote, 0);
            assert(text.skip(1) =~= line.subrange(i + 1, j));
            lemma_quoted_run(line, i + 1, j, quote, mark);
        }
    }
}

proof fn lemma_single_run(line: Seq<char>, i: int, j: int)
    requires
        0 <= i <= j <= line.len(),
        forall|k: int| i <= k < j ==> #[trigger] line[k] != '\'',
    ensures
        scan_from(line, i, inside(Quote::Single, 0)) == scan_from(
            line,
            j,
            inside(Quote::Single, 0),
        ),
    decreases j - i,
{
    if i < j {
        quotations_are_closed_by_their_own_quote(line, i, Quote::Single, 0);
        lemma_single_run(line, i + 1, j);
    }
}

proof fn lemma_scan_before_space(first: Seq<char>, second: Seq<char>, i: int, scan: Scan)
    requires
        0 <= i <= first.len(),
    ensures
        scan_from(chained(first, ' ', second), i, scan) == match scan_from(first, i, scan) {
            None => None,
            Some(end) => scan_from(chained(first, ' ', second), first.len() as int, end),
        },
    decreases first.len() - i,
{
    let line = chained(first, ' ', second);
    if i < first.len() {
        if i > 0 {
            lemma_backslashes_in_first(first, ' ', second, i - 1);
            assert(line[i - 1] == first[i - 1]);
        }
        if i + 1 < first.len() {
            assert(line[i + 1] == first[i + 1]);
        } else {
            assert(line[i + 1] == ' ');
        }
        assert(scan_step(line, i, scan) == scan_step(first, i, scan));
        match scan_step(first, i, scan) {
            None => {},
            Some((next, paired)) => {
                if paired {
                    lemma_scan_before_space(first, second, i + 2, next);
                } else {
                    lemma_scan_before_space(first, second, i + 1, next);
                }
            },
        }
    }
}

proof fn lemma_words_before_space(first: Seq<char>, second: Seq<char>, i: int)
    requires
        0 <= i <= first.len(),
    ensures
        word_end(chained(first, ' ', second), i) == word_end(first, i),
        literal_word(chained(first, ' ', second), i) == literal_word(first, i),
        skip_space(first, i) < first.len() ==> skip_space(chained(first, ' ', second), i)
            == skip_space(first, i),
        i <= word_end(first, i) <= first.len(),
        i <= skip_space(first, i) <= first.len(),
    decreases first.len() - i,
{
    let line = chained(first, ' ', second);
    if i < first.len() {
        assert(line[i] == first[i]);
        lemma_words_before_space(first, second, i + 1);
    } else {
        assert(line[i] == ' ');
    }
    let end = word_end(first, i);
    assert(line.subrange(i, end) =~= first.subrange(i, end));
    if exists|k: int| i <= k < end && crate::command_line::quoting(#[trigger] line[k]) {
        let k = choose|k: int| i <= k < end && crate::command_line::quoting(#[trigger] line[k]);
        assert(crate::command_line::quoting(first[k]));
    }
    if exists|k: int| i <= k < end && crate::command_line::quoting(#[trigger] first[k]) {
        let k = choose|k: int| i <= k < end && crate::command_line::quoting(#[trigger] first[k]);
        assert(crate::command_line::quoting(line[k]));
    }
}

proof fn lemma_tracked_before_space(first: Seq<char>, second: Seq<char>, i: int)
    requires
        0 <= i <= first.len(),
        tracked_at(first, i),
    ensures
        tracked_at(chained(first, ' ', second), i),
{
    lemma_words_before_space(first, second, i);
    let end = word_end(first, i);
    lemma_words_before_space(first, second, end);
    let next = skip_space(first, end);
    lemma_words_before_space(first, second, next);
}

/// Arguments behind a tracked line leave it tracked exactly where they themselves run
/// in the foreground and close what they open.
pub proof fn arguments_are_judged_for_themselves(line: Seq<char>, rest: Seq<char>)
    requires
        trackable(line),
    ensures
        trackable(line + " "@ + rest) <==> runs_in_foreground(rest),
{
    reveal_strlit(" ");
    let whole = chained(line, ' ', rest);
    assert(whole =~= line + " "@ + rest);
    lemma_scan_before_space(line, rest, 0, scan_start());
    assert(scan_from(line, 0, scan_start())->0 == scan_start());
    assert(whole[line.len() as int] == ' ');
    assert(scan_step(whole, line.len() as int, scan_start()) == Some((scan_start(), false)));
    lemma_scan_second(line, ' ', rest, 0, scan_start());
    lemma_words_before_space(line, rest, 0);
    let start = skip_space(line, 0);
    lemma_words_before_space(line, rest, start);
    let end = word_end(line, start);
    lemma_words_before_space(line, rest, end);
    let next = skip_space(line, end);
    lemma_words_before_space(line, rest, next);
    assert(start < line.len()) by {
        if start >= line.len() {
            assert(literal_word(line, start) is None);
        }
    }
    if literal_word(line, start) == Some("sudo"@) {
        assert(next < line.len()) by {
            if next >= line.len() {
                assert(literal_word(line, next) is None);
            }
        }
        lemma_tracked_before_space(line, rest, next);
    } else {
        lemma_tracked_before_space(line, rest, start);
    }
}

/// An ordinary argument leaves a line tracked.
pub proof fn ordinary_arguments_are_tracked(line: Seq<char>, argument: Seq<char>)
    requires
        trackable(line),
        all_ordinary(argument),
    ensures
        trackable(line + " "@ + argument),
{
    lemma_ordinary_run(argument, 0, argument.len() as int, 0);
    lines_have_to_close_what_they_open(argument);
    arguments_are_judged_for_themselves(line, argument);
}

/// A quoted argument leaves a line tracked, whatever it holds: in single quotes
/// anything but a single quote, and in double quotes, backticks or a dollar quotation
/// anything whose quotes are escaped.
pub proof fn quoted_arguments_are_tracked(line: Seq<char>, body: Seq<char>)
    requires
        trackable(line),
    ensures
        (forall|k: int| 0 <= k < body.len() ==> #[trigger] body[k] != '\'') ==> trackable(
            line + " "@ + (seq!['\''] + body + seq!['\'']),
        ),
        quotable(body, '"') ==> trackable(line + " "@ + (seq!['"'] + body + seq!['"'])),
        quotable(body, '`') ==> trackable(line + " "@ + (seq!['`'] + body + seq!['`'])),
        quotable(body, '\'') ==> trackable(line + " "@ + (seq!['$', '\''] + body + seq!['\''])),
{
    let n = body.len() as int;
    if forall|k: int| 0 <= k < body.len() ==> #[trigger] body[k] != '\'' {
        let word = seq!['\''] + body + seq!['\''];
        quotations_are_opened(word, 0, 0);
        assert forall|k: int| 1 <= k < n + 1 implies #[trigger] word[k] != '\'' by {
            assert(word[k] == body[k - 1]);
        }
        lemma_single_run(word, 1, n + 1);
        quotations_are_closed_by_their_own_quote(word, n + 1, Quote::Single, 0);
        lines_have_to_close_what_they_open(word);
        arguments_are_judged_for_themselves(line, word);
    }
    if quotable(body, '"') {
        let word = seq!['"'] + body + seq!['"'];
        lemma_quoted_word(word, body, Quote::Double, '"');
        arguments_are_judged_for_themselves(line, word);
    }
    if quotable(body, '`') {
        let word = seq!['`'] + body + seq!['`'];
        lemma_quoted_word(word, body, Quote::Backtick, '`');
        arguments_are_judged_for_themselves(line, word);
    }
    if quotable(body, '\'') {
        let word = seq!['$', '\''] + body + seq!['\''];
        other_characters_are_read_over(word, 0, 0);
        quotations_are_opened(word, 1, 0);
        assert(word.subrange(2, n + 2) =~= body);
        lemma_quoted_run(word, 2, n + 2, Quote::AnsiC, '\'');
        quotations_are_closed_by_their_own_quote(word, n + 2, Quote::AnsiC, 0);
        lines_have_to_close_what_they_open(word);
        arguments_are_judged_for_themselves(line, word);
    }
}

proof fn lemma_quoted_word(word: Seq<char>, body: Seq<char>, quote: Quote, mark: char)
    requires
        quote == Quote::Double && mark == '"' || quote == Quote::Backtick && mark == '`',
        quotable(body, mark),
        word == seq![mark] + body + seq![mark],
    ensures
        runs_in_foreground(word),
{
    let n = body.len() as int;
    quotations_are_opened(word, 0, 0);
    assert(word.subrange(1, n + 1) =~= body);
    lemma_quoted_run(word, 1, n + 1, quote, mark);
    assert(word[n + 1] == mark);
    quotations_are_closed_by_their_own_quote(word, n + 1, quote, 0);
    lines_have_to_close_what_they_open(word);
}

/// A quotation that is not closed, and a backslash at the end, leave a line untracked.
pub proof fn open_quotations_are_not_tracked(line: Seq<char>, body: Seq<char>)
    requires
        trackable(line),
    ensures
        (forall|k: int| 0 <= k < body.len() ==> #[trigger] body[k] != '\'') ==> !trackable(
            line + " "@ + (seq!['\''] + body),
        ),
        quotable(body, '"') ==> !trackable(line + " "@ + (seq!['"'] + body)),
        quotable(body, '`') ==> !trackable(line + " "@ + (seq!['`'] + body)),
        quotable(body, '\'') ==> !trackable(line + " "@ + (seq!['$', '\''] + body)),
        !trackable(line + " "@ + seq!['\\']),
{
    let n = body.len() as int;
    if forall|k: int| 0 <= k < body.len() ==> #[trigger] body[k] != '\'' {
        let word = seq!['\''] + body;
        quotations_are_opened(word, 0, 0);
        assert forall|k: int| 1 <= k < n + 1 implies #[trigger] word[k] != '\'' by {
            assert(word[k] == body[k - 1]);
        }
        lemma_single_run(word, 1, n + 1);
        lines_have_to_close_what_they_open(word);
        arguments_are_judged_for_themselves(line, word);
    }
    if quotable(body, '"') {
        let word = seq!['"'] + body;
        quotations_are_opened(word, 0, 0);
        assert(word.subrange(1, n + 1) =~= body);
        lemma_quoted_run(word, 1, n + 1, Quote::Double, '"');
        lines_have_to_close_what_they_open(word);
        arguments_are_judged_for_themselves(line, word);
    }
    if quotable(body, '`') {
        let word = seq!['`'] + body;
        quotations_are_opened(word, 0, 0);
        assert(word.subrange(1, n + 1) =~= body);
        lemma_quoted_run(word, 1, n + 1, Quote::Backtick, '`');
        lines_have_to_close_what_they_open(word);
        arguments_are_judged_for_themselves(line, word);
    }
    if quotable(body, '\'') {
        let word = seq!['$', '\''] + body;
        other_characters_are_read_over(word, 0, 0);
        quotations_are_opened(word, 1, 0);
        assert(word.subrange(2, n + 2) =~= body);
        lemma_quoted_run(word, 2, n + 2, Quote::AnsiC, '\'');
        lines_have_to_close_what_they_open(word);
        arguments_are_judged_for_themselves(line, word);
    }
    let word = seq!['\\'];
    reveal_with_fuel(scan_from, 2);
    assert(scan_from(word, 0, scan_start()) == Some(
        Scan { quote: Quote::Plain, escaped: true, depth: 0 },
    ));
    arguments_are_judged_for_themselves(line, word);
}

/// An escaped character leaves a line tracked, whatever it is.
pub proof fn escaped_characters_are_tracked(line: Seq<char>, c: char)
    requires
        trackable(line),
    ensures
        trackable(line + " "@ + seq!['\\', c]),
{
    let word = seq!['\\', c];
    escapes_skip_a_character(word, 0, Quote::Plain, 0);
    lines_have_to_close_what_they_open(word);
    arguments_are_judged_for_themselves(line, word);
}

/// A line that goes to the background is not tracked, whatever follows.
pub proof fn background_lines_are_not_tracked(line: Seq<char>, rest: Seq<char>)
    requires
        trackable(line),
    ensures
        !trackable(line + " "@ + seq!['&']),
        !trackable(line + " "@ + (seq!['&', ' '] + rest)),
{
    let word = seq!['&'];
    ampersands_are_judged(word, 0, 0);
    lines_have_to_close_what_they_open(word);
    arguments_are_judged_for_themselves(line, word);
    let more = seq!['&', ' '] + rest;
    ampersands_are_judged(more, 0, 0);
    lines_have_to_close_what_they_open(more);
    arguments_are_judged_for_themselves(line, more);
}

/// Redirections leave a line tracked, though an ampersand belongs to them: of output to
/// a descriptor, of input from one, and of both outputs.
pub proof fn redirections_are_tracked(line: Seq<char>, number: Seq<char>, word: Seq<char>)
    requires
        trackable(line),
        all_ordinary(number),
        all_ordinary(word),
    ensures
        trackable(line + " "@ + (number + seq!['>', '&'] + word)),
        trackable(line + " "@ + (number + seq!['<', '&'] + word)),
        trackable(line + " "@ + (seq!['&', '>'] + word)),
{
    let n = number.len() as int;
    let out = number + seq!['>', '&'] + word;
    lemma_redirected(out, n + 1);
    arguments_are_judged_for_themselves(line, out);
    let input = number + seq!['<', '&'] + word;
    lemma_redirected(input, n + 1);
    arguments_are_judged_for_themselves(line, input);
    let both = seq!['&', '>'] + word;
    lemma_redirected(both, 0);
    arguments_are_judged_for_themselves(line, both);
}

proof fn lemma_redirected(text: Seq<char>, at: int)
    requires
        0 <= at < text.len(),
        text[at] == '&',
        at > 0 && (text[at - 1] == '<' || text[at - 1] == '>') || at + 1 < text.len() && text[at
            + 1] == '>',
        forall|k: int| 0 <= k < text.len() && k != at ==> ordinary(#[trigger] text[k]),
    ensures
        runs_in_foreground(text),
{
    lemma_ordinary_run(text, 0, at, 0);
    ampersands_are_judged(text, at, 0);
    lemma_ordinary_run(text, at + 1, text.len() as int, 0);
    lines_have_to_close_what_they_open(text);
}

/// A group in parentheses leaves a line tracked, even where something in it runs in the
/// background; a group that is not closed, or was not opened, does not.
pub proof fn groups_are_tracked(line: Seq<char>, body: Seq<char>)
    requires
        trackable(line),
        forall|k: int|
            0 <= k < body.len() ==> ordinary(#[trigger] body[k]) || body[k] == '&',
    ensures
        trackable(line + " "@ + (seq!['('] + body + seq![')'])),
        !trackable(line + " "@ + (seq!['('] + body)),
        !trackable(line + " "@ + (seq![')'] + body)),
{
    let n = body.len() as int;
    let group = seq!['('] + body + seq![')'];
    parentheses_are_counted(group, 0, 0);
    assert forall|k: int| 1 <= k < n + 1 implies ordinary(#[trigger] group[k]) || group[k]
        == '&' by {
        assert(group[k] == body[k - 1]);
    }
    lemma_grouped_run(group, 1, n + 1);
    parentheses_are_counted(group, n + 1, 0);
    lines_have_to_close_what_they_open(group);
    arguments_are_judged_for_themselves(line, group);
    let open = seq!['('] + body;
    parentheses_are_counted(open, 0, 0);
    assert forall|k: int| 1 <= k < n + 1 implies ordinary(#[trigger] open[k]) || open[k]
        == '&' by {
        assert(open[k] == body[k - 1]);
    }
    lemma_grouped_run(open, 1, n + 1);
    lines_have_to_close_what_they_open(open);
    arguments_are_judged_for_themselves(line, open);
    let closed = seq![')'] + body;
    parentheses_are_counted(closed, 0, 0);
    lines_have_to_close_what_they_open(closed);
    arguments_are_judged_for_themselves(line, closed);
}

proof fn lemma_grouped_run(line: Seq<char>, i: int, j: int)
    requires
        0 <= i <= j <= line.len(),
        j < line.len() ==> line[j] != '&',
        forall|k: int| i <= k < j ==> ordinary(#[trigger] line[k]) || line[k] == '&',
    ensures
        scan_from(line, i, inside(Quote::Plain, 1)) == scan_from(line, j, inside(Quote::Plain, 1)),
    decreases j - i,
{
    if i < j {
        if line[i] == '&' {
            ampersands_are_judged(line, i, 1);
            if i + 1 < line.len() && line[i + 1] == '&' {
                lemma_grouped_run(line, i + 2, j);
            } else {
                lemma_grouped_run(line, i + 1, j);
            }
        } else {
            other_characters_are_read_over(line, i, 1);
            lemma_grouped_run(line, i + 1, j);
        }
    }
}

/// Whether a character is blank.
pub open spec fn is_blank_char(c: char) -> bool {
    c == ' ' || c == '\t' || c == '\n' || c == '\x0c' || c == '\r'
}

/// Whether nothing but blanks stands between two positions.
pub open spec fn blanks(line: Seq<char>, a: int, b: int) -> bool {
    0 <= a <= b <= line.len() && forall|k: int| a <= k < b ==> is_blank_char(#[trigger] line[k])
}

/// Whether a character ends a word.
pub open spec fn ends_word(c: char) -> bool {
    is_blank_char(c) || c == ';' || c == '|' || c == '&' || c == '<' || c == '>' || c == '(' || c
        == ')'
}

/// Whether a word stands between two positions that is neither quoted nor escaped in
/// any part, and goes no further.
pub open spec fn bare_word(line: Seq<char>, a: int, b: int) -> bool {
    &&& 0 <= a < b <= line.len()
    &&& forall|k: int|
        a <= k < b ==> !ends_word(#[trigger] line[k]) && line[k] != '\'' && line[k] != '"'
            && line[k] != '\\'
    &&& b == line.len() || ends_word(line[b])
}

/// Whether a tracked command stands between two positions, or `git` with `rebase`
/// behind it.
pub open spec fn begins_tracked(line: Seq<char>, a: int, b: int) -> bool {
    let word = line.subrange(a, b);
    ||| word == "cargo"@ || word == "make"@ || word == "gmake"@ || word == "go"@
    ||| word == "npm"@ || word == "npx"@ || word == "pnpm"@ || word == "pnpx"@
    ||| word == "yarn"@ || word == "bun"@
    ||| word == "gradle"@ || word == "gradlew"@ || word == "mvn"@ || word == "mvnw"@
    ||| word == "git"@ && exists|c: int, d: int|
        b < c && blanks(line, b, c) && #[trigger] bare_word(line, c, d) && line.subrange(c, d)
            == "rebase"@
}

proof fn lemma_blank_run(line: Seq<char>, a: int)
    requires
        0 <= a <= line.len(),
    ensures
        blanks(line, a, skip_space(line, a)),
        skip_space(line, a) < line.len() ==> !is_blank_char(line[skip_space(line, a)]),
    decreases line.len() - a,
{
    if a < line.len() && is_blank_char(line[a]) {
        lemma_blank_run(line, a + 1);
    }
}

proof fn lemma_blank_run_ends(line: Seq<char>, a: int, b: int)
    requires
        blanks(line, a, b),
        b < line.len() ==> !is_blank_char(line[b]),
    ensures
        skip_space(line, a) == b,
    decreases b - a,
{
    if a < b {
        assert(is_blank_char(line[a]));
        lemma_blank_run_ends(line, a + 1, b);
    }
}

proof fn lemma_word_run(line: Seq<char>, a: int)
    requires
        0 <= a <= line.len(),
    ensures
        a <= word_end(line, a) <= line.len(),
        forall|k: int| a <= k < word_end(line, a) ==> !ends_word(#[trigger] line[k]),
        word_end(line, a) < line.len() ==> ends_word(line[word_end(line, a)]),
    decreases line.len() - a,
{
    if a < line.len() && !ends_word(line[a]) {
        lemma_word_run(line, a + 1);
    }
}

proof fn lemma_word_run_ends(line: Seq<char>, a: int, b: int)
    requires
        0 <= a <= b <= line.len(),
        forall|k: int| a <= k < b ==> !ends_word(#[trigger] line[k]),
        b == line.len() || ends_word(line[b]),
    ensures
        word_end(line, a) == b,
    decreases b - a,
{
    if a < b {
        assert(!ends_word(line[a]));
        lemma_word_run_ends(line, a + 1, b);
    }
}

/// A word is read as it stands exactly where no part of it is quoted or escaped.
proof fn lemma_bare_words(line: Seq<char>, a: int)
    requires
        0 <= a <= line.len(),
    ensures
        literal_word(line, a) is Some <==> bare_word(line, a, word_end(line, a)),
        literal_word(line, a) matches Some(word) ==> word == line.subrange(a, word_end(line, a)),
{
    lemma_word_run(line, a);
    let end = word_end(line, a);
    if literal_word(line, a) is Some {
        assert forall|k: int| a <= k < end implies !ends_word(#[trigger] line[k]) && line[k]
            != '\'' && line[k] != '"' && line[k] != '\\' by {
            if crate::command_line::quoting(line[k]) {
                assert(exists|k: int|
                    a <= k < end && crate::command_line::quoting(#[trigger] line[k]));
            }
        }
    }
}

proof fn lemma_bare_word_is_read(line: Seq<char>, a: int, b: int)
    requires
        bare_word(line, a, b),
    ensures
        word_end(line, a) == b,
        literal_word(line, a) == Some(line.subrange(a, b)),
{
    assert(forall|k: int| a <= k < b ==> !ends_word(#[trigger] line[k]));
    lemma_word_run_ends(line, a, b);
    lemma_bare_words(line, a);
}

proof fn lemma_begins_tracked(line: Seq<char>, a: int, b: int)
    requires
        bare_word(line, a, b),
    ensures
        begins_tracked(line, a, b) <==> tracked_at(line, a),
{
    lemma_bare_word_is_read(line, a, b);
    let next = skip_space(line, b);
    lemma_blank_run(line, b);
    if line.subrange(a, b) == "git"@ {
        if begins_tracked(line, a, b) && !crate::command_line::tracked_name("git"@) {
            let (c, d) = choose|c: int, d: int|
                b < c && blanks(line, b, c) && #[trigger] bare_word(line, c, d) && line.subrange(
                    c,
                    d,
                ) == "rebase"@;
            assert(!ends_word(line[c]));
            lemma_blank_run_ends(line, b, c);
            lemma_bare_word_is_read(line, c, d);
        }
        if tracked_at(line, a) && !crate::command_line::tracked_name("git"@) {
            lemma_bare_words(line, next);
            assert(bare_word(line, next, word_end(line, next)));
        }
    }
}

/// A line begins with a tracked command exactly where the first word of it, or the word
/// behind a `sudo` at its front, is the bare name of one, or `git` with `rebase` behind
/// it. Blanks before and between do not matter.
pub proof fn tracked_lines_begin_with_a_tracked_word(line: Seq<char>)
    ensures
        starts_tracked(line) <==> exists|a: int, b: int|
            blanks(line, 0, a) && #[trigger] bare_word(line, a, b) && if line.subrange(a, b)
                == "sudo"@ {
                exists|c: int, d: int|
                    b < c && blanks(line, b, c) && #[trigger] bare_word(line, c, d)
                        && begins_tracked(line, c, d)
            } else {
                begins_tracked(line, a, b)
            },
        trackable(line) <==> starts_tracked(line) && runs_in_foreground(line),
{
    let start = skip_space(line, 0);
    lemma_blank_run(line, 0);
    lemma_bare_words(line, start);
    let end = word_end(line, start);
    if starts_tracked(line) {
        assert(bare_word(line, start, end));
        if line.subrange(start, end) == "sudo"@ {
            let next = skip_space(line, end);
            lemma_blank_run(line, end);
            lemma_bare_words(line, next);
            assert(bare_word(line, next, word_end(line, next)));
            lemma_begins_tracked(line, next, word_end(line, next));
        } else {
            lemma_begins_tracked(line, start, end);
        }
    }
    if exists|a: int, b: int|
        blanks(line, 0, a) && #[trigger] bare_word(line, a, b) && if line.subrange(a, b)
            == "sudo"@ {
            exists|c: int, d: int|
                b < c && blanks(line, b, c) && #[trigger] bare_word(line, c, d) && begins_tracked(
                    line,
                    c,
                    d,
                )
        } else {
            begins_tracked(line, a, b)
        } {
        let (a, b) = choose|a: int, b: int|
            blanks(line, 0, a) && #[trigger] bare_word(line, a, b) && if line.subrange(a, b)
                == "sudo"@ {
                exists|c: int, d: int|
                    b < c && blanks(line, b, c) && #[trigger] bare_word(line, c, d)
                        && begins_tracked(line, c, d)
            } else {
                begins_tracked(line, a, b)
            };
        assert(!ends_word(line[a]));
        lemma_blank_run_ends(line, 0, a);
        lemma_bare_word_is_read(line, a, b);
        if line.subrange(a, b) == "sudo"@ {
            let (c, d) = choose|c: int, d: int|
                b < c && blanks(line, b, c) && #[trigger] bare_word(line, c, d) && begins_tracked(
                    line,
                    c,
                    d,
                );
            assert(!ends_word(line[c]));
            lemma_blank_run_ends(line, b, c);
            lemma_begins_tracked(line, c, d);
        } else {
            lemma_begins_tracked(line, a, b);
        }
    }
}

/// Each tracked command is tracked under its bare name, and behind `sudo`.
pub proof fn tracked_commands_are_tracked(name: Seq<char>)
    requires
        ({
            ||| name == "cargo"@ || name == "make"@ || name == "gmake"@ || name == "go"@
            ||| name == "npm"@ || name == "npx"@ || name == "pnpm"@ || name == "pnpx"@
            ||| name == "yarn"@ || name == "bun"@
            ||| name == "gradle"@ || name == "gradlew"@ || name == "mvn"@ || name == "mvnw"@
            ||| name == "git rebase"@
        }),
    ensures
        trackable(name),
        trackable("sudo "@ + name),
{
    reveal_strlit("cargo");
    reveal_strlit("make");
    reveal_strlit("gmake");
    reveal_strlit("go");
    reveal_strlit("npm");
    reveal_strlit("npx");
    reveal_strlit("pnpm");
    reveal_strlit("pnpx");
    reveal_strlit("yarn");
    reveal_strlit("bun");
    reveal_strlit("gradle");
    reveal_strlit("gradlew");
    reveal_strlit("mvn");
    reveal_strlit("mvnw");
    reveal_strlit("git rebase");
    reveal_strlit("git");
    reveal_strlit("rebase");
    reveal_strlit("sudo");
    reveal_strlit("sudo ");
    let n = name.len() as int;
    assert(n > 0);
    assert(all_ordinary(name));
    if name == "git rebase"@ {
        assert(name.subrange(0, 3) =~= "git"@);
        assert(name.subrange(4, 10) =~= "rebase"@);
        assert(bare_word(name, 0, 3));
        assert(bare_word(name, 4, 10));
        assert(blanks(name, 3, 4));
        assert(begins_tracked(name, 0, 3));
        assert("git"@.len() != "sudo"@.len());
        assert(blanks(name, 0, 0));
    } else {
        assert(bare_word(name, 0, n));
        assert(name.subrange(0, n) =~= name);
        assert(begins_tracked(name, 0, n));
        assert(name[0] != 's');
        assert("sudo"@[0] == 's');
        assert(blanks(name, 0, 0));
    }
    tracked_lines_begin_with_a_tracked_word(name);
    lemma_ordinary_run(name, 0, n, 0);
    lines_have_to_close_what_they_open(name);
    let line = "sudo "@ + name;
    assert(line.subrange(0, 4) =~= "sudo"@);
    assert(bare_word(line, 0, 4));
    assert(blanks(line, 0, 0));
    assert(blanks(line, 4, 5));
    assert forall|k: int| 0 <= k < line.len() implies ordinary(#[trigger] line[k]) by {
        if k >= 5 {
            assert(line[k] == name[k - 5]);
        }
    }
    if name == "git rebase"@ {
        assert(line.subrange(5, 8) =~= "git"@);
        assert(line.subrange(9, 15) =~= "rebase"@);
        assert(bare_word(line, 5, 8));
        assert(bare_word(line, 9, 15));
        assert(blanks(line, 8, 9));
        assert(begins_tracked(line, 5, 8));
    } else {
        assert(line.subrange(5, n + 5) =~= name);
        assert forall|k: int| 5 <= k < n + 5 implies !ends_word(#[trigger] line[k]) && line[k]
            != '\'' && line[k] != '"' && line[k] != '\\' by {
            assert(line[k] == name[k - 5]);
        }
        assert(bare_word(line, 5, n + 5));
        assert(begins_tracked(line, 5, n + 5));
    }
    tracked_lines_begin_with_a_tracked_word(line);
    lemma_ordinary_run(line, 0, line.len() as int, 0);
    lines_have_to_close_what_they_open(line);
}

} // verus!
