//! Plain text: lines, white space and decimal numbers.

use vstd::prelude::*;
use vstd::slice::slice_subrange;
use vstd::string::StringExecFns;
use vstd::utf8::{encode_utf8, encode_utf8_decode_utf8};

verus! {

/// The number of bytes that `text` takes up in UTF-8.
pub open spec fn byte_len(text: Seq<char>) -> nat {
    encode_utf8(text).len()
}

/// The texts that a list of strings holds.
pub open spec fn texts_of(strings: Seq<String>) -> Seq<Seq<char>> {
    strings.map_values(|s: String| s@)
}

/// The text that an optional string holds.
pub open spec fn text_of(string: Option<String>) -> Option<Seq<char>> {
    match string {
        Some(s) => Some(s@),
        None => None,
    }
}

/// The texts that a list of optional strings holds.
pub open spec fn option_texts_of(strings: Seq<Option<String>>) -> Seq<Option<Seq<char>>> {
    strings.map_values(|s: Option<String>| text_of(s))
}

/// The characters with the Unicode property `White_Space`.
pub open spec fn is_white_space(c: char) -> bool {
    ||| '\u{9}' <= c <= '\u{d}'
    ||| c == ' '
    ||| c == '\u{85}'
    ||| c == '\u{a0}'
    ||| c == '\u{1680}'
    ||| '\u{2000}' <= c <= '\u{200a}'
    ||| c == '\u{2028}'
    ||| c == '\u{2029}'
    ||| c == '\u{202f}'
    ||| c == '\u{205f}'
    ||| c == '\u{3000}'
}

/// `text` without the white space at its start.
pub open spec fn trim_start(text: Seq<char>) -> Seq<char>
    decreases text.len(),
{
    if text.len() > 0 && is_white_space(text[0]) {
        trim_start(text.drop_first())
    } else {
        text
    }
}

/// `text` without the white space at its end.
pub open spec fn trim_end(text: Seq<char>) -> Seq<char>
    decreases text.len(),
{
    if text.len() > 0 && is_white_space(text.last()) {
        trim_end(text.drop_last())
    } else {
        text
    }
}

/// `text` without the white space at either end.
pub open spec fn trimmed(text: Seq<char>) -> Seq<char> {
    trim_end(trim_start(text))
}

/// Whether `text` holds white space alone.
pub open spec fn is_blank_text(text: Seq<char>) -> bool {
    forall|i: int| 0 <= i < text.len() ==> is_white_space(#[trigger] text[i])
}

/// The first line of `s` and what follows it, or `None` where `s` is empty.
///
/// A line ends at a newline, which belongs to neither part, or at the end of
/// `s`.  A carriage return right before the newline goes with the newline.
pub open spec fn first_line<T>(s: Seq<T>, newline: T, carriage_return: T) -> Option<(
    Seq<T>,
    Seq<T>,
)> {
    if s.len() == 0 {
        None
    } else if s.contains(newline) {
        let end = s.index_of_first(newline)->0;
        let line = s.take(end);
        let rest = s.skip(end + 1);
        if line.len() > 0 && line.last() == carriage_return {
            Some((line.drop_last(), rest))
        } else {
            Some((line, rest))
        }
    } else {
        Some((s, Seq::empty()))
    }
}

pub proof fn lemma_first_line_shrinks<T>(s: Seq<T>, newline: T, carriage_return: T)
    ensures
        first_line(s, newline, carriage_return) matches Some((line, rest)) ==> rest.len()
            < s.len(),
{
    if s.contains(newline) {
        s.index_of_first_ensures(newline);
    }
}

/// All lines of `s`, in order.  A newline at the very end opens no further line.
pub open spec fn all_lines<T>(s: Seq<T>, newline: T, carriage_return: T) -> Seq<Seq<T>>
    decreases s.len(),
{
    match first_line(s, newline, carriage_return) {
        None => Seq::empty(),
        Some((line, rest)) => {
            proof {
                lemma_first_line_shrinks(s, newline, carriage_return);
            }
            seq![line] + all_lines(rest, newline, carriage_return)
        },
    }
}

/// What follows a newline starts a line of its own: the lines of what is
/// appended come after the lines that were there.
pub proof fn law_lines_append<T>(earlier: Seq<T>, later: Seq<T>, newline: T, carriage_return: T)
    requires
        earlier.len() > 0 ==> earlier.last() == newline,
    ensures
        all_lines(earlier + later, newline, carriage_return) == all_lines(
            earlier,
            newline,
            carriage_return,
        ) + all_lines(later, newline, carriage_return),
    decreases earlier.len(),
{
    if earlier.len() == 0 {
        assert(earlier + later =~= later);
        assert(all_lines(earlier, newline, carriage_return) =~= Seq::empty());
        assert(all_lines(later, newline, carriage_return) =~= all_lines(
            earlier,
            newline,
            carriage_return,
        ) + all_lines(later, newline, carriage_return));
    } else {
        let both = earlier + later;
        assert(earlier[earlier.len() - 1] == newline);
        assert(both[earlier.len() - 1] == newline);
        earlier.index_of_first_ensures(newline);
        both.index_of_first_ensures(newline);
        let end = earlier.index_of_first(newline)->0;
        let found = both.index_of_first(newline)->0;
        assert(both[end] == newline);
        if found < end {
            assert(earlier[found] == both[found]);
        }
        assert(found == end);
        assert(both.take(end) =~= earlier.take(end));
        let rest = earlier.skip(end + 1);
        assert(both.skip(end + 1) =~= rest + later);
        lemma_first_line_shrinks(earlier, newline, carriage_return);
        law_lines_append(rest, later, newline, carriage_return);
        let (line, _) = first_line(earlier, newline, carriage_return).unwrap();
        assert(all_lines(both, newline, carriage_return) =~= seq![line] + all_lines(
            rest + later,
            newline,
            carriage_return,
        ));
        assert(all_lines(both, newline, carriage_return) =~= all_lines(
            earlier,
            newline,
            carriage_return,
        ) + all_lines(later, newline, carriage_return));
    }
}

/// The lines of a text.
pub open spec fn text_lines(text: Seq<char>) -> Seq<Seq<char>> {
    all_lines(text, '\n', '\r')
}

pub open spec fn is_digit(c: char) -> bool {
    '0' <= c <= '9'
}

/// The number that a run of decimal digits stands for.
pub open spec fn digits_value(digits: Seq<char>) -> nat
    decreases digits.len(),
{
    if digits.len() == 0 {
        0
    } else {
        10 * digits_value(digits.drop_last()) + (digits.last() as nat - '0' as nat) as nat
    }
}

/// `text` without one leading plus sign.
pub open spec fn without_plus(text: Seq<char>) -> Seq<char> {
    if text.len() > 0 && text[0] == '+' {
        text.drop_first()
    } else {
        text
    }
}

/// The 64-bit number that `text` writes out: one or more decimal digits after
/// an optional plus sign, and nothing else.
pub open spec fn u64_of(text: Seq<char>) -> Option<u64> {
    let digits = without_plus(text);
    if digits.len() > 0 && (forall|i: int|
        0 <= i < digits.len() ==> is_digit(#[trigger] digits[i])) && digits_value(digits)
        <= u64::MAX {
        Some(digits_value(digits) as u64)
    } else {
        None
    }
}

pub open spec fn digit_char(digit: nat) -> char {
    ('0' as nat + digit) as char
}

/// `n` in decimal, without leading zeros.
pub open spec fn decimal(n: nat) -> Seq<char>
    decreases n,
{
    if n < 10 {
        seq![digit_char(n)]
    } else {
        decimal(n / 10).push(digit_char(n % 10))
    }
}

/// Whether the two texts are the same.
pub fn same_text(a: &str, b: &str) -> (same: bool)
    ensures
        same == (a@ == b@),
{
    let left = a.as_bytes();
    let right = b.as_bytes();
    proof {
        encode_utf8_decode_utf8(a@);
        encode_utf8_decode_utf8(b@);
    }
    if left.len() != right.len() {
        return false;
    }
    let mut i: usize = 0;
    while i < left.len()
        invariant
            i <= left.len(),
            left@.len() == right@.len(),
            left@ == encode_utf8(a@),
            right@ == encode_utf8(b@),
            forall|k: int| 0 <= k < i ==> left@[k] == right@[k],
        decreases left.len() - i,
    {
        if left[i] != right[i] {
            return false;
        }
        i += 1;
    }
    assert(left@ =~= right@);
    true
}

/// The characters of `text`, one by one.
pub(crate) fn chars_of(text: &str) -> (chars: Vec<char>)
    ensures
        chars@ == text@,
{
    let mut chars: Vec<char> = Vec::new();
    for c in it: text.chars()
        invariant
            it.seq() == text@,
            chars@ == text@.take(it.index() as int),
    {
        chars.push(c);
    }
    assert(text@.take(text@.len() as int) =~= text@);
    chars
}

fn white_space(c: char) -> (white: bool)
    ensures
        white == is_white_space(c),
{
    ('\u{9}' <= c && c <= '\u{d}') || c == ' ' || c == '\u{85}' || c == '\u{a0}' || c == '\u{1680}'
        || ('\u{2000}' <= c && c <= '\u{200a}') || c == '\u{2028}' || c == '\u{2029}' || c
        == '\u{202f}' || c == '\u{205f}' || c == '\u{3000}'
}

/// `text` without the white space at either end.
pub(crate) fn trim(text: &[char]) -> (inner: &[char])
    ensures
        inner@ == trimmed(text@),
{
    let mut start: usize = 0;
    assert(text@.skip(0) =~= text@);
    while start < text.len() && white_space(text[start])
        invariant
            start <= text.len(),
            trim_start(text@) == trim_start(text@.skip(start as int)),
        decreases text.len() - start,
    {
        assert(text@.skip(start as int).drop_first() =~= text@.skip(start + 1));
        start += 1;
    }
    let ghost left = text@.skip(start as int);
    assert(trim_start(text@) == left);
    let mut end: usize = text.len();
    assert(text@.subrange(start as int, end as int) =~= left);
    while start < end && white_space(text[end - 1])
        invariant
            start <= end <= text.len(),
            trim_end(left) == trim_end(text@.subrange(start as int, end as int)),
        decreases end,
    {
        assert(text@.subrange(start as int, end as int).drop_last() =~= text@.subrange(
            start as int,
            end - 1,
        ));
        end -= 1;
    }
    slice_subrange(text, start, end)
}

/// Whether `text` is empty once the white space at its ends is gone.
pub fn is_blank(text: &str) -> (blank: bool)
    ensures
        blank == is_blank_text(text@),
        blank == (trimmed(text@).len() == 0),
{
    let chars = chars_of(text);
    let inner = trim(chars.as_slice());
    proof {
        lemma_trimmed_empty(text@);
    }
    inner.len() == 0
}

/// What is left after trimming is empty exactly where all was white space.
pub proof fn lemma_trimmed_empty(text: Seq<char>)
    ensures
        (trimmed(text).len() == 0) == is_blank_text(text),
{
    lemma_trim_start_keeps_blankness(text);
    lemma_trim_end_keeps_blankness(trim_start(text));
}

proof fn lemma_trim_start_keeps_blankness(text: Seq<char>)
    ensures
        is_blank_text(trim_start(text)) == is_blank_text(text),
    decreases text.len(),
{
    if text.len() > 0 && is_white_space(text[0]) {
        lemma_trim_start_keeps_blankness(text.drop_first());
        assert forall|i: int| is_blank_text(text.drop_first()) && 0 <= i < text.len() implies is_white_space(
            #[trigger] text[i],
        ) by {
            if i > 0 {
                assert(text[i] == text.drop_first()[i - 1]);
            }
        }
    }
}

proof fn lemma_trim_end_keeps_blankness(text: Seq<char>)
    ensures
        (trim_end(text).len() == 0) == is_blank_text(text),
    decreases text.len(),
{
    if text.len() > 0 && is_white_space(text.last()) {
        lemma_trim_end_keeps_blankness(text.drop_last());
        assert forall|i: int| is_blank_text(text.drop_last()) && 0 <= i < text.len() implies is_white_space(
            #[trigger] text[i],
        ) by {
            if i < text.len() - 1 {
                assert(text[i] == text.drop_last()[i]);
            }
        }
    }
}

/// The first line of `text` and what follows it.
pub(crate) fn split_first_line(text: &[char]) -> (parts: Option<(&[char], &[char])>)
    ensures
        match parts {
            Some((line, rest)) => first_line(text@, '\n', '\r') == Some((line@, rest@)),
            None => first_line(text@, '\n', '\r') is None,
        },
{
    if text.len() == 0 {
        return None;
    }
    let mut end: usize = 0;
    while end < text.len() && text[end] != '\n'
        invariant
            end <= text.len(),
            forall|k: int| 0 <= k < end ==> text@[k] != '\n',
        decreases text.len() - end,
    {
        end += 1;
    }
    if end == text.len() {
        let rest = slice_subrange(text, end, end);
        assert(rest@ =~= Seq::empty());
        Some((text, rest))
    } else {
        proof {
            assert(text@.contains('\n')) by {
                assert(text@[end as int] == '\n');
            }
            text@.index_of_first_ensures('\n');
            let found = text@.index_of_first('\n')->0;
            assert(found == end);
        }
        let rest = slice_subrange(text, end + 1, text.len());
        assert(rest@ =~= text@.skip(end + 1));
        assert(text@.subrange(0, end as int) =~= text@.take(end as int));
        if end > 0 && text[end - 1] == '\r' {
            let line = slice_subrange(text, 0, end - 1);
            assert(line@ =~= text@.take(end as int).drop_last());
            Some((line, rest))
        } else {
            Some((slice_subrange(text, 0, end), rest))
        }
    }
}

proof fn lemma_digits_value_grows(digits: Seq<char>, n: int)
    requires
        0 <= n <= digits.len(),
    ensures
        digits_value(digits.take(n)) <= digits_value(digits),
    decreases digits.len(),
{
    if n < digits.len() {
        lemma_digits_value_grows(digits.drop_last(), n);
        assert(digits.drop_last().take(n) =~= digits.take(n));
    } else {
        assert(digits.take(n) =~= digits);
    }
}

/// The number that `text` writes out.
pub(crate) fn parse_chars(text: &[char]) -> (number: Option<u64>)
    ensures
        number == u64_of(text@),
{
    let start: usize = if text.len() > 0 && text[0] == '+' {
        1
    } else {
        0
    };
    let ghost digits = without_plus(text@);
    assert(digits =~= text@.skip(start as int));
    if start == text.len() {
        return None;
    }
    let mut value: u64 = 0;
    let mut i: usize = start;
    while i < text.len()
        invariant
            start <= i <= text.len(),
            digits == text@.skip(start as int),
            digits == without_plus(text@),
            value == digits_value(digits.take(i - start)),
            forall|k: int| 0 <= k < i - start ==> is_digit(#[trigger] digits[k]),
        decreases text.len() - i,
    {
        let c = text[i];
        assert(digits[i - start] == c);
        if c < '0' || '9' < c {
            return None;
        }
        let digit: u64 = c as u64 - '0' as u64;
        proof {
            let before = digits.take(i - start);
            let after = digits.take(i - start + 1);
            assert(after.drop_last() =~= before);
            assert(digits_value(after) == 10 * value + digit);
            lemma_digits_value_grows(digits, i - start + 1);
        }
        if value > (u64::MAX - digit) / 10 {
            return None;
        }
        value = 10 * value + digit;
        i += 1;
    }
    assert(digits.take(text.len() - start) =~= digits);
    Some(value)
}

/// The number that `text` writes out: decimal digits after an optional plus
/// sign, with no white space around them.
pub fn parse_u64(text: &str) -> (number: Option<u64>)
    ensures
        number == u64_of(text@),
{
    let chars = chars_of(text);
    parse_chars(chars.as_slice())
}

fn digit_text(digit: u64) -> (text: &'static str)
    requires
        digit < 10,
    ensures
        text@ == seq![digit_char(digit as nat)],
{
    proof {
        reveal_strlit("0");
        reveal_strlit("1");
        reveal_strlit("2");
        reveal_strlit("3");
        reveal_strlit("4");
        reveal_strlit("5");
        reveal_strlit("6");
        reveal_strlit("7");
        reveal_strlit("8");
        reveal_strlit("9");
    }
    match digit {
        0 => "0",
        1 => "1",
        2 => "2",
        3 => "3",
        4 => "4",
        5 => "5",
        6 => "6",
        7 => "7",
        8 => "8",
        _ => "9",
    }
}

/// Adds `n` in decimal to the end of `out`.
pub(crate) fn push_u64(out: &mut String, n: u64)
    ensures
        final(out)@ == old(out)@ + decimal(n as nat),
    decreases n,
{
    if n >= 10 {
        push_u64(out, n / 10);
    }
    out.append(digit_text(n % 10));
    assert(out@ =~= old(out)@ + decimal(n as nat));
}

/// `n` in decimal.
pub fn render_u64(n: u64) -> (text: String)
    ensures
        text@ == decimal(n as nat),
{
    let mut text = String::new();
    push_u64(&mut text, n);
    assert(text@ =~= decimal(n as nat));
    text
}

/// What a number is written as holds digits alone, at least one, and stands
/// for that number.
pub proof fn lemma_decimal(n: nat)
    ensures
        decimal(n).len() > 0,
        forall|i: int| 0 <= i < decimal(n).len() ==> is_digit(#[trigger] decimal(n)[i]),
        digits_value(decimal(n)) == n,
    decreases n,
{
    reveal_with_fuel(digits_value, 2);
    if n >= 10 {
        lemma_decimal(n / 10);
        assert(decimal(n).drop_last() =~= decimal(n / 10));
    } else {
        assert(decimal(n).drop_last() =~= Seq::<char>::empty());
    }
}

/// Reading a number back gives the number that was written.
pub proof fn law_decimal_round_trip(n: u64)
    ensures
        u64_of(decimal(n as nat)) == Some(n),
{
    lemma_decimal(n as nat);
    assert(is_digit(decimal(n as nat)[0]));
}

/// Trimming takes nothing from a number.
pub proof fn lemma_decimal_is_trimmed(n: nat)
    ensures
        trimmed(decimal(n)) == decimal(n),
{
    lemma_decimal(n);
    assert(is_digit(decimal(n)[0]));
    assert(is_digit(decimal(n).last()));
}

// ── Laws ─────────────────────────────────────────────────────────────────────

/// A list of strings holds the text of each string, in order, and so does one of
/// strings that may be missing.
pub proof fn law_texts_stand_in_order(
    strings: Seq<String>,
    optional: Seq<Option<String>>,
    i: int,
)
    ensures
        texts_of(strings).len() == strings.len(),
        0 <= i < strings.len() ==> texts_of(strings)[i] == strings[i]@,
        option_texts_of(optional).len() == optional.len(),
        0 <= i < optional.len() ==> match optional[i] {
            Some(s) => option_texts_of(optional)[i] == Some(s@),
            None => option_texts_of(optional)[i] is None,
        },
{
}

/// A text takes up as many bytes as its UTF-8 encoding has, so two texts in a row
/// take up the bytes of both.
pub proof fn law_bytes_add_up(first: Seq<char>, second: Seq<char>)
    ensures
        byte_len(first + second) == encode_utf8(first).len() + encode_utf8(second).len(),
        byte_len(Seq::empty()) == 0,
    decreases first.len(),
{
    if first.len() == 0 {
        assert(first + second =~= second);
    } else {
        assert((first + second).drop_first() =~= first.drop_first() + second);
        law_bytes_add_up(first.drop_first(), second);
    }
}

/// White space is what Unicode gives the property `White_Space`.
pub proof fn law_white_space(c: char)
    ensures
        is_white_space(c) <==> {
            let code = c as nat;
            ||| 0x9 <= code <= 0xd
            ||| code == 0x20
            ||| code == 0x85
            ||| code == 0xa0
            ||| code == 0x1680
            ||| 0x2000 <= code <= 0x200a
            ||| 0x2028 <= code <= 0x2029
            ||| code == 0x202f
            ||| code == 0x205f
            ||| code == 0x3000
        },
{
}

proof fn lemma_trim_start_cuts(text: Seq<char>) -> (start: int)
    ensures
        0 <= start <= text.len(),
        trim_start(text) == text.skip(start),
        forall|k: int| 0 <= k < start ==> is_white_space(#[trigger] text[k]),
        start < text.len() ==> !is_white_space(text[start]),
    decreases text.len(),
{
    if text.len() > 0 && is_white_space(text[0]) {
        let inner = lemma_trim_start_cuts(text.drop_first());
        assert(text.drop_first().skip(inner) =~= text.skip(inner + 1));
        assert forall|k: int| 0 <= k < inner + 1 implies is_white_space(#[trigger] text[k]) by {
            if k > 0 {
                assert(text[k] == text.drop_first()[k - 1]);
            }
        }
        inner + 1
    } else {
        assert(text.skip(0) =~= text);
        0
    }
}

proof fn lemma_trim_end_cuts(text: Seq<char>) -> (end: int)
    ensures
        0 <= end <= text.len(),
        trim_end(text) == text.take(end),
        forall|k: int| end <= k < text.len() ==> is_white_space(#[trigger] text[k]),
        end > 0 ==> !is_white_space(text[end - 1]),
    decreases text.len(),
{
    if text.len() > 0 && is_white_space(text.last()) {
        let end = lemma_trim_end_cuts(text.drop_last());
        assert(text.drop_last().take(end) =~= text.take(end));
        assert forall|k: int| end <= k < text.len() implies is_white_space(#[trigger] text[k]) by {
            if k < text.len() - 1 {
                assert(text[k] == text.drop_last()[k]);
            }
        }
        end
    } else {
        assert(text.take(text.len() as int) =~= text);
        text.len() as int
    }
}

/// Trimming takes white space alone, from the two ends, and takes all of it: what is
/// left neither starts nor ends with white space.
pub proof fn law_trimming_takes_white_space_alone(text: Seq<char>) -> (cut: (int, int))
    ensures
        0 <= cut.0 <= cut.1 <= text.len(),
        trimmed(text) == text.subrange(cut.0, cut.1),
        forall|k: int| 0 <= k < cut.0 ==> is_white_space(#[trigger] text[k]),
        forall|k: int| cut.1 <= k < text.len() ==> is_white_space(#[trigger] text[k]),
        trimmed(text).len() > 0 ==> !is_white_space(trimmed(text)[0]) && !is_white_space(
            trimmed(text).last(),
        ),
{
    let start = lemma_trim_start_cuts(text);
    let inner = text.skip(start);
    let end = lemma_trim_end_cuts(inner);
    assert(inner.take(end) =~= text.subrange(start, start + end));
    assert forall|k: int| start + end <= k < text.len() implies is_white_space(
        #[trigger] text[k],
    ) by {
        assert(text[k] == inner[k - start]);
    }
    if end > 0 {
        assert(trimmed(text)[0] == text[start]);
        assert(trimmed(text).last() == inner[end - 1]);
    }
    (start, start + end)
}

/// Lines are split off at newlines.  What stands before the first newline is the
/// first line, without a carriage return at its end, and the lines of what follows
/// come after it.  What has no newline is one line, and nothing is none.
pub proof fn law_lines_end_at_newlines<T>(
    line: Seq<T>,
    rest: Seq<T>,
    newline: T,
    carriage_return: T,
)
    requires
        !line.contains(newline),
    ensures
        all_lines(line.push(newline) + rest, newline, carriage_return) == seq![
            if line.len() > 0 && line.last() == carriage_return {
                line.drop_last()
            } else {
                line
            },
        ] + all_lines(rest, newline, carriage_return),
        line.len() > 0 ==> all_lines(line, newline, carriage_return) == seq![line],
        all_lines(Seq::<T>::empty(), newline, carriage_return) == Seq::<Seq<T>>::empty(),
{
    let s = line.push(newline) + rest;
    let end = line.len() as int;
    assert(s[end] == newline);
    assert(s.contains(newline));
    s.index_of_first_ensures(newline);
    let found = s.index_of_first(newline)->0;
    if found < end {
        assert(line[found] == s[found]);
        assert(line.contains(newline));
    }
    assert(s.take(end) =~= line);
    assert(s.skip(end + 1) =~= rest);
    reveal_with_fuel(all_lines, 2);
    if line.len() > 0 {
        assert(all_lines(line, newline, carriage_return) =~= seq![line]);
    }
}

/// A number is written in decimal: the last digit stands for the ones, and what
/// stands before it is the number of tens, if there are any.
pub proof fn law_decimal_digits(tens: nat, ones: nat)
    requires
        ones < 10,
    ensures
        decimal(ones) == seq![('0' as nat + ones) as char],
        tens > 0 ==> decimal(10 * tens + ones) == decimal(tens).push(('0' as nat + ones) as char),
{
}

/// A number is read digit by digit: each digit makes ten times what was read before
/// plus its value, up to what 64 bits hold.  Before the first digit there may be one
/// plus sign.  Any other character spoils the number, and so does a number beyond 64
/// bits, whatever follows.
pub proof fn law_numbers_are_read_by_digits(text: Seq<char>, c: char)
    ensures
        u64_of(Seq::empty()) is None,
        !('0' <= c <= '9') ==> u64_of(text.push(c)) is None,
        '0' <= c <= '9' && (text.len() == 0 || text == seq!['+']) ==> u64_of(text.push(c)) == Some(
            (c as int - '0' as int) as u64,
        ),
        '0' <= c <= '9' && u64_of(text) is None && text.len() > 0 && text != seq!['+'] ==> u64_of(
            text.push(c),
        ) is None,
        '0' <= c <= '9' && u64_of(text) is Some ==> {
            let value = 10 * u64_of(text)->0 + (c as int - '0' as int);
            if value <= u64::MAX {
                u64_of(text.push(c)) == Some(value as u64)
            } else {
                u64_of(text.push(c)) is None
            }
        },
{
    reveal_with_fuel(digits_value, 2);
    let longer = text.push(c);
    let digits = without_plus(longer);
    if text.len() == 0 {
        assert(text =~= Seq::empty());
        if c != '+' {
            assert(digits =~= seq![c]);
            assert(digits.drop_last() =~= Seq::<char>::empty());
            assert(digits[0] == c);
        }
    } else {
        let before = without_plus(text);
        assert(longer[0] == text[0]);
        assert(digits =~= before.push(c));
        assert(digits.drop_last() =~= before);
        assert(digits[digits.len() - 1] == c);
        assert(forall|i: int| 0 <= i < before.len() ==> digits[i] == before[i]);
        if before.len() == 0 {
            assert(text =~= seq!['+']);
            assert(digits =~= seq![c]);
        } else if exists|i: int| 0 <= i < before.len() && !is_digit(#[trigger] before[i]) {
            let i = choose|i: int| 0 <= i < before.len() && !is_digit(#[trigger] before[i]);
            assert(!is_digit(digits[i]));
        } else {
            if is_digit(c) {
                assert forall|i: int| 0 <= i < digits.len() implies is_digit(
                    #[trigger] digits[i],
                ) by {
                    if i < before.len() {
                        assert(digits[i] == before[i]);
                    }
                }
            }
        }
    }
}

/// A number beyond 64 bits is not read.
pub proof fn law_larger_numbers_are_not_read(n: nat)
    requires
        n > u64::MAX,
    ensures
        u64_of(decimal(n)) is None,
{
    lemma_decimal(n);
    assert(is_digit(decimal(n)[0]));
}

} // verus!
