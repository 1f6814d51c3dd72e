//! What the library has from `serde_json`.

use vstd::prelude::*;

verus! {

/// A JSON value of `serde_json`.  It is carried through as it is; only
/// [`value_text`] looks inside.
#[verifier::external_type_specification]
#[verifier::external_body]
pub struct ExValue(serde_json::Value);

/// The compact JSON text of a value: what `serde_json::Value` displays as.
pub uninterp spec fn json_text(value: serde_json::Value) -> Seq<char>;

/// What a character becomes inside a JSON string.
pub open spec fn json_escape(c: char) -> Seq<char> {
    if c == '"' {
        seq!['\\', '"']
    } else if c == '\\' {
        seq!['\\', '\\']
    } else if c == '\u{8}' {
        seq!['\\', 'b']
    } else if c == '\t' {
        seq!['\\', 't']
    } else if c == '\n' {
        seq!['\\', 'n']
    } else if c == '\u{c}' {
        seq!['\\', 'f']
    } else if c == '\r' {
        seq!['\\', 'r']
    } else if '\u{1f}' >= c {
        seq!['\\', 'u', '0', '0', hex_digit(c as nat / 16), hex_digit(c as nat % 16)]
    } else {
        seq![c]
    }
}

/// A hexadecimal digit, in lower case.
pub open spec fn hex_digit(digit: nat) -> char {
    if digit < 10 {
        ('0' as nat + digit) as char
    } else {
        ('a' as nat + (digit - 10)) as char
    }
}

/// The inside of the JSON string that stands for `text`.
pub open spec fn json_escaped(text: Seq<char>) -> Seq<char>
    decreases text.len(),
{
    if text.len() == 0 {
        Seq::empty()
    } else {
        json_escaped(text.drop_last()) + json_escape(text.last())
    }
}

/// The JSON string that stands for `text`, with its quotation marks.
pub open spec fn json_quoted(text: Seq<char>) -> Seq<char> {
    seq!['"'] + json_escaped(text) + seq!['"']
}

/// Calls `to_string` of `serde_json::Value`, which writes the value as compact
/// JSON.  The text depends on the value alone, and [`json_text`] names it.
#[verifier::external_body]
pub(crate) fn value_text(value: &serde_json::Value) -> (text: String)
    ensures
        text@ == json_text(*value),
{
    value.to_string()
}

/// Calls `From<&str>` of `serde_json::Value`, which makes a JSON string.  As
/// compact JSON it is `text` between quotation marks, where the quotation
/// mark, the backslash and the control characters below U+0020 are escaped,
/// and nothing else is.
#[verifier::external_body]
pub(crate) fn string_value(text: &str) -> (value: serde_json::Value)
    ensures
        json_text(value) == json_quoted(text@),
{
    serde_json::Value::from(text)
}

/// `text` as a JSON string.
pub fn quote(text: &str) -> (quoted: String)
    ensures
        quoted@ == json_quoted(text@),
{
    value_text(&string_value(text))
}

// ── Reading strings back ─────────────────────────────────────────────────────

/// The value of a hexadecimal digit, of either case.
pub open spec fn hex_value(c: char) -> Option<nat> {
    if '0' <= c <= '9' {
        Some((c as nat - '0' as nat) as nat)
    } else if 'a' <= c <= 'f' {
        Some((c as nat - 'a' as nat + 10) as nat)
    } else if 'A' <= c <= 'F' {
        Some((c as nat - 'A' as nat + 10) as nat)
    } else {
        None
    }
}

/// The character that the escape sequence at the start of `s` stands for, and what
/// follows the sequence.  Halves of surrogate pairs are not read.
pub open spec fn read_escape(s: Seq<char>) -> Option<(char, Seq<char>)> {
    if s.len() < 2 || s[0] != '\\' {
        None
    } else if s[1] == '"' || s[1] == '\\' || s[1] == '/' {
        Some((s[1], s.skip(2)))
    } else if s[1] == 'b' {
        Some(('\u{8}', s.skip(2)))
    } else if s[1] == 'f' {
        Some(('\u{c}', s.skip(2)))
    } else if s[1] == 'n' {
        Some(('\n', s.skip(2)))
    } else if s[1] == 'r' {
        Some(('\r', s.skip(2)))
    } else if s[1] == 't' {
        Some(('\t', s.skip(2)))
    } else if s[1] == 'u' && s.len() >= 6 {
        match (hex_value(s[2]), hex_value(s[3]), hex_value(s[4]), hex_value(s[5])) {
            (Some(a), Some(b), Some(c), Some(d)) => {
                let code = 4096 * a + 256 * b + 16 * c + d;
                if 0xd800 <= code < 0xe000 {
                    None
                } else {
                    Some((code as char, s.skip(6)))
                }
            },
            _ => None,
        }
    } else {
        None
    }
}

/// The text of a JSON string whose opening quotation mark has been read, and what
/// follows its closing one.
pub open spec fn read_string_end(s: Seq<char>) -> Option<(Seq<char>, Seq<char>)>
    decreases s.len(),
{
    if s.len() == 0 || '\u{1f}' >= s[0] {
        None
    } else if s[0] == '"' {
        Some((Seq::empty(), s.skip(1)))
    } else if s[0] == '\\' {
        match read_escape(s) {
            Some((c, after)) => if after.len() < s.len() {
                match read_string_end(after) {
                    Some((text, rest)) => Some((seq![c] + text, rest)),
                    None => None,
                }
            } else {
                None
            },
            None => None,
        }
    } else {
        match read_string_end(s.skip(1)) {
            Some((text, rest)) => Some((seq![s[0]] + text, rest)),
            None => None,
        }
    }
}

/// The text of the JSON string that `s` starts with, and what follows it, as a
/// reader of JSON takes it.
pub open spec fn read_json_string(s: Seq<char>) -> Option<(Seq<char>, Seq<char>)> {
    if s.len() > 0 && s[0] == '"' {
        read_string_end(s.skip(1))
    } else {
        None
    }
}

proof fn lemma_escaped_starts_with_first(text: Seq<char>)
    requires
        text.len() > 0,
    ensures
        json_escaped(text) == json_escape(text[0]) + json_escaped(text.drop_first()),
    decreases text.len(),
{
    if text.len() == 1 {
        assert(text.drop_last() =~= Seq::empty());
        assert(text.drop_first() =~= Seq::empty());
        assert(json_escaped(text.drop_last()) =~= Seq::empty());
        assert(json_escaped(text) =~= json_escape(text[0]) + json_escaped(text.drop_first()));
    } else {
        lemma_escaped_starts_with_first(text.drop_last());
        assert(text.drop_last().drop_first() =~= text.drop_first().drop_last());
        assert(json_escaped(text) =~= json_escape(text[0]) + json_escaped(text.drop_first()));
    }
}

/// One escaped character reads back as that character.
proof fn lemma_escape_reads_back(c: char, after: Seq<char>)
    ensures
        ({
            let s = json_escape(c) + after;
            &&& s.len() > after.len()
            &&& s[0] != '"'
            &&& '\u{1f}' < s[0]
            &&& if s[0] == '\\' {
                read_escape(s) == Some((c, after))
            } else {
                s[0] == c && s.skip(1) == after
            }
        }),
{
    let s = json_escape(c) + after;
    if json_escape(c).len() == 1 {
        assert(s.skip(1) =~= after);
    } else if json_escape(c).len() == 2 {
        assert(s.skip(2) =~= after);
    } else {
        let code = c as nat;
        assert(code < 32);
        let high = code / 16;
        let low = code % 16;
        assert(high < 2 && low < 16 && 16 * high + low == code);
        assert(hex_value(hex_digit(high)) == Some(high));
        assert(hex_value(hex_digit(low)) == Some(low));
        assert(hex_value('0') == Some(0nat));
        assert(s[2] == '0' && s[3] == '0' && s[4] == hex_digit(high) && s[5] == hex_digit(low));
        assert(s.skip(6) =~= after);
        assert(code as char == c);
    }
}

proof fn lemma_escaped_reads_back(text: Seq<char>, rest: Seq<char>)
    ensures
        read_string_end(json_escaped(text) + seq!['"'] + rest) == Some((text, rest)),
    decreases text.len(),
{
    let s = json_escaped(text) + seq!['"'] + rest;
    if text.len() == 0 {
        assert(s =~= seq!['"'] + rest);
        assert(s.skip(1) =~= rest);
        assert(text =~= Seq::empty());
    } else {
        let tail = text.drop_first();
        let after = json_escaped(tail) + seq!['"'] + rest;
        lemma_escaped_starts_with_first(text);
        assert(s =~= json_escape(text[0]) + after);
        lemma_escaped_reads_back(tail, rest);
        lemma_escape_reads_back(text[0], after);
        assert(seq![text[0]] + tail =~= text);
    }
}

/// A quoted text reads back as that text, and leaves what follows it.
pub proof fn law_quoted_text_reads_back(text: Seq<char>, rest: Seq<char>)
    ensures
        read_json_string(json_quoted(text) + rest) == Some((text, rest)),
        read_json_string(json_quoted(text)) == Some((text, Seq::<char>::empty())),
{
    lemma_escaped_reads_back(text, rest);
    lemma_escaped_reads_back(text, Seq::empty());
    assert((json_quoted(text) + rest).skip(1) =~= json_escaped(text) + seq!['"'] + rest);
    assert(json_quoted(text).skip(1) =~= json_escaped(text) + seq!['"'] + Seq::empty());
}

} // verus!
