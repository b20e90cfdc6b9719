//! Text building blocks: comparison, concatenation, decimal numerals and lines.

use vstd::prelude::*;
use vstd::string::*;

verus! {

/// `String::push` puts one character behind the ones that the string holds.
pub assume_specification[ String::push ](text: &mut String, c: char)
    ensures
        final(text)@ == old(text)@.push(c),
;

/// What the `Debug` form of a string reads like: quoted, with escapes.
pub uninterp spec fn debug_text(text: Seq<char>) -> Seq<char>;

/// Calls `format!` with the `Debug` form of a string; the result depends on the
/// characters of the string alone, and is named by `debug_text`.
#[verifier::external_body]
pub(crate) fn debug_of(text: &str) -> (r: String)
    ensures
        r@ == debug_text(text@),
{
    format!("{text:?}")
}

/// The characters of a string, one by one.
pub fn chars_of(text: &str) -> (r: Vec<char>)
    ensures
        r@ == text@,
{
    let mut out: Vec<char> = Vec::new();
    for c in it: text.chars()
        invariant
            it.seq() == text@,
            out@ == it.seq().take(it.index() as int),
    {
        out.push(c);
    }
    out
}

/// Whether two strings hold the same characters.
pub fn same_text(left: &str, right: &str) -> (r: bool)
    ensures
        r == (left@ == right@),
{
    let a: Vec<char> = chars_of(left);
    let b: Vec<char> = chars_of(right);
    same_chars(&a, &b)
}

/// Whether two character vectors are equal.
pub fn same_chars(a: &Vec<char>, b: &Vec<char>) -> (r: bool)
    ensures
        r == (a@ == b@),
{
    if a.len() != b.len() {
        return false;
    }
    let mut i: usize = 0;
    while i < a.len()
        invariant
            i <= a.len(),
            a.len() == b.len(),
            forall|k: int| 0 <= k < i ==> a@[k] == b@[k],
        decreases a.len() - i,
    {
        if a[i] != b[i] {
            return false;
        }
        i += 1;
    }
    assert(a@ =~= b@);
    true
}

/// The character of a decimal digit.
pub open spec fn digit(d: nat) -> char {
    (48 + d) as char
}

/// The decimal numeral of a natural number, without leading zeros.
pub open spec fn numeral(n: nat) -> Seq<char>
    decreases n,
{
    if n < 10 {
        seq![digit(n)]
    } else {
        numeral(n / 10).push(digit(n % 10))
    }
}

/// The decimal numeral of an integer, with a minus sign where it is negative.
pub open spec fn signed(n: int) -> Seq<char> {
    if n < 0 {
        seq!['-'] + numeral((-n) as nat)
    } else {
        numeral(n as nat)
    }
}

/// A numeral padded with a zero to two digits.
pub open spec fn two_digits(n: nat) -> Seq<char> {
    if n < 10 {
        seq!['0'] + numeral(n)
    } else {
        numeral(n)
    }
}

fn digit_char(d: u8) -> (r: char)
    requires
        d < 10,
    ensures
        r == digit(d as nat),
{
    match d {
        0 => '0',
        1 => '1',
        2 => '2',
        3 => '3',
        4 => '4',
        5 => '5',
        6 => '6',
        7 => '7',
        8 => '8',
        _ => '9',
    }
}

/// Writes a natural number in decimal.
pub fn natural(n: u128) -> (r: String)
    ensures
        r@ == numeral(n as nat),
    decreases n,
{
    let last: char = digit_char((n % 10) as u8);
    let mut out: String = if n < 10 {
        String::new()
    } else {
        natural(n / 10)
    };
    out.push(last);
    assert(n < 10 ==> out@ =~= seq![digit(n as nat)]);
    out
}

/// Writes an integer in decimal.
pub fn decimal(n: i64) -> (r: String)
    ensures
        r@ == signed(n as int),
{
    if n < 0 {
        let magnitude: i128 = -(n as i128);
        let mut out: String = String::new();
        out.push('-');
        out.append(natural(magnitude as u128).as_str());
        assert(seq!['-'] =~= Seq::<char>::empty().push('-'));
        out
    } else {
        natural(n as u128)
    }
}

/// Writes a number with at least two digits.
pub fn padded(n: u64) -> (r: String)
    ensures
        r@ == two_digits(n as nat),
{
    let digits: String = natural(n as u128);
    if n < 10 {
        let mut out: String = String::new();
        out.push('0');
        out.append(digits.as_str());
        assert(seq!['0'] =~= Seq::<char>::empty().push('0'));
        out
    } else {
        digits
    }
}

/// The characters with the `White_Space` property.
pub open spec fn white(c: char) -> bool {
    let n = c as u32;
    ||| 9 <= n <= 13
    ||| n == 0x20
    ||| n == 0x85
    ||| n == 0xa0
    ||| n == 0x1680
    ||| 0x2000 <= n <= 0x200a
    ||| n == 0x2028
    ||| n == 0x2029
    ||| n == 0x202f
    ||| n == 0x205f
    ||| n == 0x3000
}

/// Whether a text holds nothing but white space.
pub open spec fn blank(text: Seq<char>) -> bool {
    forall|i: int| 0 <= i < text.len() ==> white(#[trigger] text[i])
}

/// Tells whether a character has the `White_Space` property.
pub fn is_white(c: char) -> (r: bool)
    ensures
        r == white(c),
{
    let n: u32 = c as u32;
    (9 <= n && n <= 13) || n == 0x20 || n == 0x85 || n == 0xa0 || n == 0x1680 || (0x2000 <= n && n
        <= 0x200a) || n == 0x2028 || n == 0x2029 || n == 0x202f || n == 0x205f || n == 0x3000
}

/// Tells whether a text is empty once its white space is trimmed away.
pub fn is_blank(text: &str) -> (r: bool)
    ensures
        r == blank(text@),
{
    let chars: Vec<char> = chars_of(text);
    let mut i: usize = 0;
    while i < chars.len()
        invariant
            i <= chars.len(),
            chars@ == text@,
            forall|k: int| 0 <= k < i ==> white(#[trigger] chars@[k]),
        decreases chars.len() - i,
    {
        if !is_white(chars[i]) {
            return false;
        }
        i += 1;
    }
    true
}

/// The characters as a string.
pub fn text_of(chars: &Vec<char>) -> (r: String)
    ensures
        r@ == chars@,
{
    let mut out: String = String::new();
    let mut i: usize = 0;
    while i < chars.len()
        invariant
            i <= chars.len(),
            out@ == chars@.take(i as int),
        decreases chars.len() - i,
    {
        out.push(chars[i]);
        assert(chars@.take(i + 1) =~= chars@.take(i as int).push(chars@[i as int]));
        i += 1;
    }
    assert(chars@.take(chars@.len() as int) =~= chars@);
    out
}

/// The texts behind one another, with a separator between neighbours.
pub open spec fn joined(parts: Seq<Seq<char>>, separator: Seq<char>) -> Seq<char>
    decreases parts.len(),
{
    if parts.len() == 0 {
        Seq::empty()
    } else if parts.len() == 1 {
        parts[0]
    } else {
        joined(parts.drop_last(), separator) + separator + parts.last()
    }
}

/// The characters of each text of a list.
pub open spec fn texts(parts: Seq<String>) -> Seq<Seq<char>> {
    parts.map_values(|part: String| part@)
}

/// Puts the texts behind one another, with a separator between neighbours.
pub fn join(parts: &[String], separator: &str) -> (r: String)
    ensures
        r@ == joined(texts(parts@), separator@),
{
    let mut out: String = String::new();
    let mut i: usize = 0;
    while i < parts.len()
        invariant
            i <= parts.len(),
            out@ == joined(texts(parts@).take(i as int), separator@),
        decreases parts.len() - i,
    {
        let ghost before = texts(parts@).take(i as int);
        if i > 0 {
            out.append(separator);
        }
        out.append(parts[i].as_str());
        proof {
            let after = texts(parts@).take(i + 1);
            assert(after.drop_last() =~= before);
            assert(after.last() == parts@[i as int]@);
            if i == 0 {
                assert(before =~= Seq::empty());
                assert(out@ =~= parts@[0]@);
            }
        }
        i += 1;
    }
    assert(texts(parts@).take(parts@.len() as int) =~= texts(parts@));
    out
}

/// Whether a text starts with another one.
pub fn starts_with(text: &str, prefix: &str) -> (r: bool)
    ensures
        r == prefix@.is_prefix_of(text@),
{
    let a: Vec<char> = chars_of(text);
    let b: Vec<char> = chars_of(prefix);
    if a.len() < b.len() {
        return false;
    }
    let mut i: usize = 0;
    while i < b.len()
        invariant
            i <= b.len() <= a.len(),
            a@ == text@,
            b@ == prefix@,
            forall|k: int| 0 <= k < i ==> a@[k] == b@[k],
        decreases b.len() - i,
    {
        if a[i] != b[i] {
            return false;
        }
        i += 1;
    }
    assert(b@ =~= a@.subrange(0, b@.len() as int));
    true
}

/// The text behind its first `count` characters.
pub fn text_after(text: &str, count: usize) -> (r: String)
    requires
        count <= text@.len(),
    ensures
        r@ == text@.skip(count as int),
{
    let chars: Vec<char> = chars_of(text);
    let mut out: String = String::new();
    let mut i: usize = count;
    while i < chars.len()
        invariant
            count <= i <= chars.len(),
            chars@ == text@,
            out@ == text@.subrange(count as int, i as int),
        decreases chars.len() - i,
    {
        out.push(chars[i]);
        assert(text@.subrange(count as int, i + 1) =~= text@.subrange(count as int, i as int).push(
            text@[i as int],
        ));
        i += 1;
    }
    out
}

/// How many characters stand before the first that is not white space.
pub open spec fn leading_white(text: Seq<char>) -> int
    decreases text.len(),
{
    if text.len() > 0 && white(text[0]) {
        1 + leading_white(text.drop_first())
    } else {
        0
    }
}

/// A text without white space at its end.
pub open spec fn without_trailing_white(text: Seq<char>) -> Seq<char>
    decreases text.len(),
{
    if text.len() > 0 && white(text.last()) {
        without_trailing_white(text.drop_last())
    } else {
        text
    }
}

/// A text without white space at its ends.
pub open spec fn trimmed(text: Seq<char>) -> Seq<char> {
    without_trailing_white(text.skip(leading_white(text)))
}

/// A text without white space at its ends.
pub fn trim(text: &str) -> (r: String)
    ensures
        r@ == trimmed(text@),
{
    let chars: Vec<char> = chars_of(text);
    let mut start: usize = 0;
    assert(chars@.skip(0) =~= chars@);
    while start < chars.len() && is_white(chars[start])
        invariant
            start <= chars.len(),
            leading_white(chars@) == start + leading_white(chars@.skip(start as int)),
        decreases chars.len() - start,
    {
        assert(chars@.skip(start as int).drop_first() =~= chars@.skip(start + 1));
        start = start + 1;
    }
    assert(leading_white(chars@) == start);
    let mut end: usize = chars.len();
    assert(chars@.subrange(start as int, end as int) =~= chars@.skip(start as int));
    while end > start && is_white(chars[end - 1])
        invariant
            start <= end <= chars.len(),
            without_trailing_white(chars@.skip(start as int)) == without_trailing_white(
                chars@.subrange(start as int, end as int),
            ),
        decreases end,
    {
        assert(chars@.subrange(start as int, end as int).drop_last() =~= chars@.subrange(
            start as int,
            end - 1,
        ));
        end = end - 1;
    }
    let mut kept: Vec<char> = Vec::new();
    let mut i: usize = start;
    while i < end
        invariant
            start <= i <= end <= chars.len(),
            kept@ == chars@.subrange(start as int, i as int),
        decreases end - i,
    {
        kept.push(chars[i]);
        i = i + 1;
        assert(kept@ =~= chars@.subrange(start as int, i as int));
    }
    text_of(&kept)
}

} // verus!
