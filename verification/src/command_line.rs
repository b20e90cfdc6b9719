//! Which command lines are tracked.
//!
//! A line is tracked when its first literal word names a tracked command and
//! nothing in it runs in the background at the top level. The text is only
//! classified: no word is expanded and nothing is executed.

use vstd::prelude::*;

use crate::text::{chars_of, same_text, text_of};

verus! {

/// The characters that separate words.
pub open spec fn space(c: char) -> bool {
    c == ' ' || c == '\t' || c == '\n' || c == '\x0c' || c == '\r'
}

/// The characters that end a word by being operators themselves.
pub open spec fn operator(c: char) -> bool {
    c == ';' || c == '|' || c == '&' || c == '<' || c == '>' || c == '(' || c == ')'
}

/// The characters that quote or escape.
pub open spec fn quoting(c: char) -> bool {
    c == '\'' || c == '"' || c == '\\'
}

/// The first position from `i` on that holds no separator.
pub open spec fn skip_space(line: Seq<char>, i: int) -> int
    decreases line.len() - i,
{
    if 0 <= i < line.len() && space(line[i]) {
        skip_space(line, i + 1)
    } else {
        i
    }
}

/// The position behind the word that starts at `i`.
pub open spec fn word_end(line: Seq<char>, i: int) -> int
    decreases line.len() - i,
{
    if 0 <= i < line.len() && !space(line[i]) && !operator(line[i]) {
        word_end(line, i + 1)
    } else {
        i
    }
}

/// The word that starts at `i`, where there is one and nothing in it is quoted
/// or escaped.
pub open spec fn literal_word(line: Seq<char>, i: int) -> Option<Seq<char>> {
    let end = word_end(line, i);
    if end <= i || exists|k: int| i <= k < end && quoting(#[trigger] line[k]) {
        None
    } else {
        Some(line.subrange(i, end))
    }
}

/// The commands that are tracked under their own name.
pub open spec fn tracked_name(word: Seq<char>) -> bool {
    ||| word == "cargo"@
    ||| word == "make"@
    ||| word == "gmake"@
    ||| word == "go"@
    ||| word == "npm"@
    ||| word == "npx"@
    ||| word == "pnpm"@
    ||| word == "pnpx"@
    ||| word == "yarn"@
    ||| word == "bun"@
    ||| word == "gradle"@
    ||| word == "gradlew"@
    ||| word == "mvn"@
    ||| word == "mvnw"@
}

/// The start of the word behind the one at `i`, where blank space parts them.
pub open spec fn following_word(line: Seq<char>, i: int) -> Option<int> {
    let end = word_end(line, i);
    let next = skip_space(line, end);
    if next > end {
        Some(next)
    } else {
        None
    }
}

/// Whether a tracked command, or `git rebase`, is written at `i`.
pub open spec fn tracked_at(line: Seq<char>, i: int) -> bool {
    match literal_word(line, i) {
        None => false,
        Some(word) => {
            ||| tracked_name(word)
            ||| word == "git"@ && following_word(line, i) is Some && literal_word(
                line,
                following_word(line, i)->0,
            ) == Some("rebase"@)
        },
    }
}

/// Whether the line starts with a tracked command, perhaps behind `sudo`.
pub open spec fn starts_tracked(line: Seq<char>) -> bool {
    let start = skip_space(line, 0);
    if literal_word(line, start) == Some("sudo"@) {
        following_word(line, start) is Some && tracked_at(line, following_word(line, start)->0)
    } else {
        tracked_at(line, start)
    }
}

/// The kind of quoting that a position of the line stands in.
#[derive(Clone, Copy, Debug, PartialEq, Eq, Structural)]
pub enum Quote {
    Plain,
    Single,
    AnsiC,
    Double,
    Backtick,
}

/// What the text before a position leaves open.
pub struct Scan {
    /// The quoting that the position stands in.
    pub quote: Quote,
    /// Whether the character at the position is escaped.
    pub escaped: bool,
    /// The number of open parentheses.
    pub depth: nat,
}

/// The length of the run of backslashes that ends before `i`.
pub open spec fn backslashes_before(line: Seq<char>, i: int) -> nat
    decreases i,
{
    if 0 < i <= line.len() && line[i - 1] == '\\' {
        backslashes_before(line, i - 1) + 1
    } else {
        0
    }
}

/// Whether an unescaped dollar sign stands right before `i`.
pub open spec fn active_dollar(line: Seq<char>, i: int) -> bool {
    i > 0 && line[i - 1] == '$' && backslashes_before(line, i - 1) % 2 == 0
}

/// Whether the ampersand at `i` belongs to a redirection.
pub open spec fn redirection(line: Seq<char>, i: int) -> bool {
    ||| i > 0 && (line[i - 1] == '<' || line[i - 1] == '>')
    ||| i + 1 < line.len() && line[i + 1] == '>'
}

/// The character that ends a quotation.
pub open spec fn closing(quote: Quote) -> char {
    match quote {
        Quote::Double => '"',
        Quote::Backtick => '`',
        _ => '\'',
    }
}

/// Reads the character at `i`. The flag tells that the next one belongs to it;
/// there is no result where the line cannot be tracked.
pub open spec fn scan_step(line: Seq<char>, i: int, scan: Scan) -> Option<(Scan, bool)> {
    let c = line[i];
    if scan.escaped {
        Some((Scan { escaped: false, ..scan }, false))
    } else if scan.quote != Quote::Plain {
        if c == closing(scan.quote) {
            Some((Scan { quote: Quote::Plain, ..scan }, false))
        } else if c == '\\' && scan.quote != Quote::Single {
            Some((Scan { escaped: true, ..scan }, false))
        } else {
            Some((scan, false))
        }
    } else if c == '\'' {
        Some(
            (
                Scan {
                    quote: if active_dollar(line, i) {
                        Quote::AnsiC
                    } else {
                        Quote::Single
                    },
                    ..scan
                },
                false,
            ),
        )
    } else if c == '"' {
        Some((Scan { quote: Quote::Double, ..scan }, false))
    } else if c == '`' {
        Some((Scan { quote: Quote::Backtick, ..scan }, false))
    } else if c == '\\' {
        Some((Scan { escaped: true, ..scan }, false))
    } else if c == '(' {
        Some((Scan { depth: scan.depth + 1, ..scan }, false))
    } else if c == ')' {
        if scan.depth == 0 {
            None
        } else {
            Some((Scan { depth: (scan.depth - 1) as nat, ..scan }, false))
        }
    } else if c == '&' {
        if i + 1 < line.len() && line[i + 1] == '&' {
            Some((scan, true))
        } else if scan.depth == 0 && !redirection(line, i) {
            None
        } else {
            Some((scan, false))
        }
    } else {
        Some((scan, false))
    }
}

/// Reads the line from `i` to its end.
pub open spec fn scan_from(line: Seq<char>, i: int, scan: Scan) -> Option<Scan>
    decreases line.len() - i,
{
    if i < 0 || i >= line.len() {
        Some(scan)
    } else {
        match scan_step(line, i, scan) {
            None => None,
            Some((next, paired)) => if paired {
                scan_from(line, i + 2, next)
            } else {
                scan_from(line, i + 1, next)
            },
        }
    }
}

/// What is open at the start of a line: nothing.
pub open spec fn scan_start() -> Scan {
    Scan { quote: Quote::Plain, escaped: false, depth: 0 }
}

/// Whether everything is closed.
pub open spec fn settled(scan: Scan) -> bool {
    scan.quote == Quote::Plain && !scan.escaped && scan.depth == 0
}

/// Whether the quoting and the parentheses of the line are closed, and no part
/// of it runs in the background outside of parentheses.
pub open spec fn runs_in_foreground(line: Seq<char>) -> bool {
    match scan_from(line, 0, scan_start()) {
        None => false,
        Some(scan) => settled(scan),
    }
}

/// Whether a command line is tracked.
pub open spec fn trackable(line: Seq<char>) -> bool {
    starts_tracked(line) && runs_in_foreground(line)
}

fn is_space(c: char) -> (r: bool)
    ensures
        r == space(c),
{
    c == ' ' || c == '\t' || c == '\n' || c == '\x0c' || c == '\r'
}

fn is_operator(c: char) -> (r: bool)
    ensures
        r == operator(c),
{
    c == ';' || c == '|' || c == '&' || c == '<' || c == '>' || c == '(' || c == ')'
}

fn skip_spaces(line: &Vec<char>, start: usize) -> (r: usize)
    requires
        start <= line.len(),
    ensures
        r == skip_space(line@, start as int),
        start <= r <= line.len(),
{
    let mut i: usize = start;
    while i < line.len() && is_space(line[i])
        invariant
            start <= i <= line.len(),
            skip_space(line@, start as int) == skip_space(line@, i as int),
        decreases line.len() - i,
    {
        i += 1;
    }
    i
}

/// The literal word at `start`, and the position behind it.
fn word(line: &Vec<char>, start: usize) -> (r: Option<(String, usize)>)
    requires
        start <= line.len(),
    ensures
        match r {
            None => literal_word(line@, start as int) is None,
            Some((text, end)) => {
                &&& literal_word(line@, start as int) == Some(text@)
                &&& end == word_end(line@, start as int)
                &&& start < end <= line.len()
            },
        },
{
    let mut end: usize = start;
    let mut chars: Vec<char> = Vec::new();
    let mut literal: bool = true;
    while end < line.len() && !is_space(line[end]) && !is_operator(line[end])
        invariant
            start <= end <= line.len(),
            word_end(line@, start as int) == word_end(line@, end as int),
            chars@ == line@.subrange(start as int, end as int),
            literal == !(exists|k: int| start <= k < end && quoting(#[trigger] line@[k])),
        decreases line.len() - end,
    {
        let c: char = line[end];
        if c == '\'' || c == '"' || c == '\\' {
            literal = false;
            assert(quoting(line@[end as int]));
        }
        chars.push(c);
        assert(line@.subrange(start as int, end + 1) =~= line@.subrange(
            start as int,
            end as int,
        ).push(c));
        end += 1;
    }
    if literal && end > start {
        Some((text_of(&chars), end))
    } else {
        None
    }
}

fn is_tracked_name(word: &str) -> (r: bool)
    ensures
        r == tracked_name(word@),
{
    same_text(word, "cargo") || same_text(word, "make") || same_text(word, "gmake") || same_text(
        word,
        "go",
    ) || same_text(word, "npm") || same_text(word, "npx") || same_text(word, "pnpm") || same_text(
        word,
        "pnpx",
    ) || same_text(word, "yarn") || same_text(word, "bun") || same_text(word, "gradle")
        || same_text(word, "gradlew") || same_text(word, "mvn") || same_text(word, "mvnw")
}

fn is_tracked_at(line: &Vec<char>, start: usize) -> (r: bool)
    requires
        start <= line.len(),
    ensures
        r == tracked_at(line@, start as int),
{
    match word(line, start) {
        None => false,
        Some((first, end)) => {
            if is_tracked_name(first.as_str()) {
                return true;
            }
            if !same_text(first.as_str(), "git") {
                return false;
            }
            let next: usize = skip_spaces(line, end);
            if next == end {
                return false;
            }
            match word(line, next) {
                None => false,
                Some((second, _)) => same_text(second.as_str(), "rebase"),
            }
        },
    }
}

fn is_started_tracked(line: &Vec<char>) -> (r: bool)
    ensures
        r == starts_tracked(line@),
{
    let start: usize = skip_spaces(line, 0);
    match word(line, start) {
        None => false,
        Some((first, end)) => {
            if !same_text(first.as_str(), "sudo") {
                return is_tracked_at(line, start);
            }
            let next: usize = skip_spaces(line, end);
            next > end && is_tracked_at(line, next)
        },
    }
}

fn has_active_dollar(line: &Vec<char>, index: usize) -> (r: bool)
    requires
        index < line.len(),
    ensures
        r == active_dollar(line@, index as int),
{
    if index == 0 || line[index - 1] != '$' {
        return false;
    }
    let mut i: usize = index - 1;
    let mut even: bool = true;
    while i > 0 && line[i - 1] == '\\'
        invariant
            i < index <= line.len(),
            (backslashes_before(line@, index - 1) % 2 == 0) == ((backslashes_before(
                line@,
                i as int,
            ) % 2 == 0) == even),
        decreases i,
    {
        even = !even;
        i -= 1;
    }
    even
}

fn is_redirection(line: &Vec<char>, index: usize) -> (r: bool)
    requires
        index < line.len(),
    ensures
        r == redirection(line@, index as int),
{
    (index > 0 && (line[index - 1] == '<' || line[index - 1] == '>')) || (index + 1 < line.len()
        && line[index + 1] == '>')
}

fn is_in_foreground(line: &Vec<char>) -> (r: bool)
    ensures
        r == runs_in_foreground(line@),
{
    let mut quote: Quote = Quote::Plain;
    let mut escaped: bool = false;
    let mut depth: usize = 0;
    let mut index: usize = 0;
    while index < line.len()
        invariant
            index <= line.len(),
            depth <= index,
            scan_from(line@, 0, scan_start()) == scan_from(
                line@,
                index as int,
                Scan { quote, escaped, depth: depth as nat },
            ),
        decreases line.len() - index,
    {
        let c: char = line[index];
        if escaped {
            escaped = false;
        } else {
            match quote {
                Quote::Single => {
                    if c == '\'' {
                        quote = Quote::Plain;
                    }
                },
                Quote::AnsiC => {
                    if c == '\'' {
                        quote = Quote::Plain;
                    } else if c == '\\' {
                        escaped = true;
                    }
                },
                Quote::Double => {
                    if c == '"' {
                        quote = Quote::Plain;
                    } else if c == '\\' {
                        escaped = true;
                    }
                },
                Quote::Backtick => {
                    if c == '`' {
                        quote = Quote::Plain;
                    } else if c == '\\' {
                        escaped = true;
                    }
                },
                Quote::Plain => {
                    if c == '\'' {
                        quote = if has_active_dollar(line, index) {
                            Quote::AnsiC
                        } else {
                            Quote::Single
                        };
                    } else if c == '"' {
                        quote = Quote::Double;
                    } else if c == '`' {
                        quote = Quote::Backtick;
                    } else if c == '\\' {
                        escaped = true;
                    } else if c == '(' {
                        depth += 1;
                    } else if c == ')' {
                        if depth == 0 {
                            return false;
                        }
                        depth -= 1;
                    } else if c == '&' {
                        if index + 1 < line.len() && line[index + 1] == '&' {
                            index += 1;
                        } else if depth == 0 && !is_redirection(line, index) {
                            return false;
                        }
                    }
                },
            }
        }
        index += 1;
    }
    !escaped && depth == 0 && quote == Quote::Plain
}

/// Classifies command text without expanding or executing it.
pub fn should_track(command: &str) -> (r: bool)
    ensures
        r == trackable(command@),
{
    let line: Vec<char> = chars_of(command);
    is_started_tracked(&line) && is_in_foreground(&line)
}

/// What is open where reading the line from `i` arrives at `k`.
pub open spec fn scan_until(line: Seq<char>, i: int, scan: Scan, k: int) -> Option<Scan>
    decreases line.len() - i,
{
    if i == k {
        Some(scan)
    } else if i < 0 || i >= line.len() {
        None
    } else {
        match scan_step(line, i, scan) {
            None => None,
            Some((next, paired)) => if paired {
                scan_until(line, i + 2, next, k)
            } else {
                scan_until(line, i + 1, next, k)
            },
        }
    }
}

/// Whether a background operator stands at `k`, outside of quotes and parentheses.
pub open spec fn background_at(line: Seq<char>, k: int) -> bool {
    &&& 0 <= k < line.len()
    &&& line[k] == '&'
    &&& !(k + 1 < line.len() && line[k + 1] == '&')
    &&& !redirection(line, k)
    &&& scan_until(line, 0, scan_start(), k) matches Some(scan) && settled(scan)
}

proof fn lemma_scan_through(line: Seq<char>, i: int, scan: Scan, k: int)
    requires
        0 <= i,
        scan_until(line, i, scan, k) is Some,
        0 <= k <= line.len(),
    ensures
        scan_from(line, i, scan) == scan_from(line, k, scan_until(line, i, scan, k)->0),
    decreases line.len() - i,
{
    if i != k {
        let (next, paired) = scan_step(line, i, scan)->0;
        if paired {
            lemma_scan_through(line, i + 2, next, k);
        } else {
            lemma_scan_through(line, i + 1, next, k);
        }
    }
}

/// A line with a background operator at the top level is not tracked.
pub proof fn background_is_not_tracked(line: Seq<char>, k: int)
    requires
        background_at(line, k),
    ensures
        !trackable(line),
{
    lemma_scan_through(line, 0, scan_start(), k);
}

/// The two lines behind one another, parted by an operator.
pub open spec fn chained(first: Seq<char>, separator: char, second: Seq<char>) -> Seq<char> {
    first.push(separator) + second
}

pub(crate) proof fn lemma_backslashes_in_first(first: Seq<char>, c: char, second: Seq<char>, i: int)
    requires
        0 <= i <= first.len(),
    ensures
        backslashes_before(chained(first, c, second), i) == backslashes_before(first, i),
    decreases i,
{
    if i > 0 {
        lemma_backslashes_in_first(first, c, second, i - 1);
    }
}

pub(crate) proof fn lemma_backslashes_in_second(first: Seq<char>, c: char, second: Seq<char>, i: int)
    requires
        0 <= i <= second.len(),
        c != '\\',
    ensures
        backslashes_before(chained(first, c, second), first.len() + 1 + i) == backslashes_before(
            second,
            i,
        ),
    decreases i,
{
    let n = first.len() + 1;
    if i > 0 {
        lemma_backslashes_in_second(first, c, second, i - 1);
        assert(chained(first, c, second)[n + i - 1] == second[i - 1]);
    } else {
        assert(chained(first, c, second)[n - 1] == c);
    }
}

proof fn lemma_scan_first(first: Seq<char>, c: char, second: Seq<char>, i: int, scan: Scan)
    requires
        0 <= i <= first.len(),
        c == ';' || c == '|' || (c == '&' || c == ' ') && (first.len() > 0 ==> first.last()
            != '&'),
    ensures
        scan_from(chained(first, c, second), i, scan) == match scan_from(first, i, scan) {
            None => None,
            Some(end) => scan_from(chained(first, c, second), first.len() as int, end),
        },
    decreases first.len() - i,
{
    let line = chained(first, c, second);
    if i < first.len() {
        if i > 0 {
            lemma_backslashes_in_first(first, c, second, i - 1);
            assert(line[i - 1] == first[i - 1]);
        }
        if i + 1 < first.len() {
            assert(line[i + 1] == first[i + 1]);
        } else {
            assert(line[i + 1] == c);
        }
        assert(scan_step(line, i, scan) == scan_step(first, i, scan));
        match scan_step(first, i, scan) {
            None => {},
            Some((next, paired)) => {
                if paired {
                    lemma_scan_first(first, c, second, i + 2, next);
                } else {
                    lemma_scan_first(first, c, second, i + 1, next);
                }
            },
        }
    }
}

pub(crate) proof fn lemma_scan_second(first: Seq<char>, c: char, second: Seq<char>, i: int, scan: Scan)
    requires
        0 <= i,
        c == ';' || c == '|' || c == '&' || c == ' ',
    ensures
        scan_from(chained(first, c, second), first.len() + 1 + i, scan) == scan_from(
            second,
            i,
            scan,
        ),
    decreases second.len() - i,
{
    let line = chained(first, c, second);
    let n = first.len() + 1;
    if i < second.len() {
        assert(line[n + i] == second[i]);
        if i > 0 {
            lemma_backslashes_in_second(first, c, second, i - 1);
            assert(line[n + i - 1] == second[i - 1]);
        } else {
            assert(line[n - 1] == c);
        }
        if i + 1 < second.len() {
            assert(line[n + i + 1] == second[i + 1]);
        }
        assert(active_dollar(line, n + i) == active_dollar(second, i));
        assert(redirection(line, n + i) == redirection(second, i));
        assert(scan_step(line, n + i, scan) == scan_step(second, i, scan));
        match scan_step(second, i, scan) {
            None => {},
            Some((next, paired)) => {
                if paired {
                    lemma_scan_second(first, c, second, i + 2, next);
                } else {
                    lemma_scan_second(first, c, second, i + 1, next);
                }
            },
        }
    }
}

proof fn lemma_words_in_first(first: Seq<char>, c: char, second: Seq<char>, i: int)
    requires
        0 <= i <= first.len(),
        c == ';' || c == '|' || c == '&',
    ensures
        word_end(chained(first, c, second), i) == word_end(first, i),
        skip_space(chained(first, c, second), i) == skip_space(first, i),
        literal_word(chained(first, c, second), i) == literal_word(first, i),
        i <= word_end(first, i) <= first.len(),
        i <= skip_space(first, i) <= first.len(),
    decreases first.len() - i,
{
    let line = chained(first, c, second);
    if i < first.len() {
        assert(line[i] == first[i]);
        lemma_words_in_first(first, c, second, i + 1);
    } else {
        assert(line[i] == c);
    }
    let end = word_end(first, i);
    assert(line.subrange(i, end) =~= first.subrange(i, end));
    if exists|k: int| i <= k < end && quoting(#[trigger] line[k]) {
        let k = choose|k: int| i <= k < end && quoting(#[trigger] line[k]);
        assert(quoting(first[k]));
    }
    if exists|k: int| i <= k < end && quoting(#[trigger] first[k]) {
        let k = choose|k: int| i <= k < end && quoting(#[trigger] first[k]);
        assert(quoting(line[k]));
    }
}

/// A chain or a pipeline that starts with a tracked line, and goes on with one
/// that stays in the foreground, is tracked as a whole.
pub proof fn chain_is_tracked(first: Seq<char>, separator: char, second: Seq<char>)
    requires
        separator == ';' || separator == '|',
        trackable(first),
        runs_in_foreground(second),
    ensures
        trackable(chained(first, separator, second)),
{
    let line = chained(first, separator, second);
    lemma_scan_first(first, separator, second, 0, scan_start());
    assert(line[first.len() as int] == separator);
    assert(scan_from(first, 0, scan_start())->0 == scan_start());
    assert(scan_step(line, first.len() as int, scan_start()) == Some((scan_start(), false)));
    lemma_scan_second(first, separator, second, 0, scan_start());
    lemma_starts_in_first(first, separator, second);
}

/// What a line starts with does not depend on what it is chained with.
proof fn lemma_starts_in_first(first: Seq<char>, separator: char, second: Seq<char>)
    requires
        separator == ';' || separator == '|' || separator == '&',
    ensures
        starts_tracked(chained(first, separator, second)) == starts_tracked(first),
{
    lemma_words_in_first(first, separator, second, 0);
    let start = skip_space(first, 0);
    lemma_words_in_first(first, separator, second, start);
    lemma_words_in_first(first, separator, second, word_end(first, start));
    let next = skip_space(first, word_end(first, start));
    lemma_words_in_first(first, separator, second, next);
    lemma_words_in_first(first, separator, second, word_end(first, next));
    let third = skip_space(first, word_end(first, next));
    lemma_words_in_first(first, separator, second, third);
}

/// A conditional chain, on success or on failure, is tracked as a whole, too,
/// where the first line does not end with an ampersand of its own.
pub proof fn conditional_chain_is_tracked(first: Seq<char>, operator: char, second: Seq<char>)
    requires
        operator == '&' || operator == '|',
        trackable(first),
        operator == '&' ==> first.last() != '&',
        runs_in_foreground(second),
    ensures
        trackable(first + seq![operator, operator] + second),
{
    let rest = seq![operator] + second;
    let line = chained(first, operator, rest);
    assert(line =~= first + seq![operator, operator] + second);
    assert(chained(Seq::empty(), operator, second) =~= rest);
    lemma_scan_second(Seq::empty(), operator, second, 0, scan_start());
    if operator == '|' {
        assert(scan_step(rest, 0, scan_start()) == Some((scan_start(), false)));
        chain_is_tracked(first, operator, rest);
    } else {
        let n = first.len() as int;
        lemma_scan_first(first, operator, rest, 0, scan_start());
        assert(scan_from(first, 0, scan_start())->0 == scan_start());
        assert(line[n] == '&' && line[n + 1] == '&');
        assert(scan_step(line, n, scan_start()) == Some((scan_start(), true)));
        lemma_scan_second(first, operator, rest, 1, scan_start());
        lemma_starts_in_first(first, operator, rest);
    }
}

proof fn lemma_words_in_second(first: Seq<char>, c: char, second: Seq<char>, i: int)
    requires
        0 <= i <= second.len(),
    ensures
        ({
            let n = first.len() + 1;
            let line = chained(first, c, second);
            &&& word_end(line, n + i) == n + word_end(second, i)
            &&& skip_space(line, n + i) == n + skip_space(second, i)
            &&& literal_word(line, n + i) == literal_word(second, i)
            &&& i <= word_end(second, i) <= second.len()
            &&& i <= skip_space(second, i) <= second.len()
        }),
    decreases second.len() - i,
{
    let n = first.len() + 1;
    let line = chained(first, c, second);
    if i < second.len() {
        assert(line[n + i] == second[i]);
        lemma_words_in_second(first, c, second, i + 1);
    }
    let end = word_end(second, i);
    assert(line.subrange(n + i, n + end) =~= second.subrange(i, end));
    if exists|k: int| n + i <= k < n + end && quoting(#[trigger] line[k]) {
        let k = choose|k: int| n + i <= k < n + end && quoting(#[trigger] line[k]);
        assert(quoting(second[k - n]));
    }
    if exists|k: int| i <= k < end && quoting(#[trigger] second[k]) {
        let k = choose|k: int| i <= k < end && quoting(#[trigger] second[k]);
        assert(quoting(line[n + k]));
    }
}

/// A line that starts with a tracked command is tracked behind `sudo`, too.
pub proof fn sudo_is_tracked(line: Seq<char>)
    requires
        trackable(line),
        tracked_at(line, skip_space(line, 0)),
    ensures
        trackable("sudo "@ + line),
{
    reveal_strlit("sudo");
    reveal_strlit("sudo ");
    let whole = chained("sudo"@, ' ', line);
    assert(whole =~= "sudo "@ + line);
    assert("sudo"@ =~= seq!['s', 'u', 'd', 'o']);
    lemma_scan_first("sudo"@, ' ', line, 0, scan_start());
    lemma_plain_word_scans("sudo"@, 0);
    assert(whole[4] == ' ');
    assert(scan_step(whole, 4, scan_start()) == Some((scan_start(), false)));
    lemma_scan_second("sudo"@, ' ', line, 0, scan_start());
    assert(whole[0] == 's' && whole[1] == 'u' && whole[2] == 'd' && whole[3] == 'o');
    assert(word_end(whole, 4) == 4);
    assert(word_end(whole, 3) == 4);
    assert(word_end(whole, 2) == 4);
    assert(word_end(whole, 1) == 4);
    assert(word_end(whole, 0) == 4);
    assert(whole.subrange(0, 4) =~= "sudo"@);
    assert forall|k: int| 0 <= k < 4 implies !quoting(#[trigger] whole[k]) by {}
    assert(literal_word(whole, 0) == Some("sudo"@));
    lemma_words_in_second("sudo"@, ' ', line, 0);
    let start = skip_space(line, 0);
    assert(skip_space(whole, 4) == skip_space(whole, 5));
    assert(following_word(whole, 0) == Some(5 + start));
    lemma_words_in_second("sudo"@, ' ', line, start);
    lemma_words_in_second("sudo"@, ' ', line, word_end(line, start));
    let next = skip_space(line, word_end(line, start));
    lemma_words_in_second("sudo"@, ' ', line, next);
}

/// Nothing is open behind a word of plain letters.
proof fn lemma_plain_word_scans(word: Seq<char>, i: int)
    requires
        0 <= i <= word.len(),
        forall|k: int|
            0 <= k < word.len() ==> 'a' <= #[trigger] word[k] && word[k] <= 'z',
    ensures
        scan_from(word, i, scan_start()) == Some(scan_start()),
    decreases word.len() - i,
{
    if i < word.len() {
        assert(scan_step(word, i, scan_start()) == Some((scan_start(), false)));
        lemma_plain_word_scans(word, i + 1);
    }
}

} // verus!
