//! The framing of a JSONL transcript: from the bytes of the file to the lines
//! that are to be parsed.

use vstd::prelude::*;
use vstd::slice::{slice_subrange, slice_to_vec};
use vstd::utf8::{decode_utf8, valid_utf8};
use crate::text::{
    all_lines, first_line, law_lines_append, law_lines_end_at_newlines, lemma_first_line_shrinks,
    option_texts_of, text_of, texts_of,
};

verus! {

/// What a line reads as: its text, or `None` where it is not valid UTF-8.
pub open spec fn line_text(line: Seq<u8>) -> Option<Seq<char>> {
    if valid_utf8(line) {
        Some(decode_utf8(line))
    } else {
        None
    }
}

/// The lines of `data`, each as it reads.
pub open spec fn read_lines(data: Seq<u8>) -> Seq<Option<Seq<char>>> {
    all_lines(data, 10u8, 13u8).map_values(|line: Seq<u8>| line_text(line))
}

/// The texts of the lines that read as text.
pub open spec fn readable(lines: Seq<Option<Seq<char>>>) -> Seq<Seq<char>>
    decreases lines.len(),
{
    if lines.len() == 0 {
        Seq::empty()
    } else {
        match lines.last() {
            Some(text) => readable(lines.drop_last()).push(text),
            None => readable(lines.drop_last()),
        }
    }
}

/// The lines that are not empty.
pub open spec fn non_empty(lines: Seq<Seq<char>>) -> Seq<Seq<char>>
    decreases lines.len(),
{
    if lines.len() == 0 {
        Seq::empty()
    } else if lines.last().len() > 0 {
        non_empty(lines.drop_last()).push(lines.last())
    } else {
        non_empty(lines.drop_last())
    }
}

/// The lines of the part of a transcript from byte `offset` on that are to be
/// parsed: those that read as text and are not empty.  The first line is left
/// out, whatever it holds, since `offset` may lie in the middle of it.
pub open spec fn lines_from(data: Seq<u8>, offset: int) -> Seq<Seq<char>> {
    if data.len() <= offset {
        Seq::empty()
    } else {
        non_empty(readable(read_lines(data.skip(offset)).drop_first()))
    }
}

/// The lines of a whole transcript that are to be searched: all that read as
/// text and are not empty.
pub open spec fn lines_to_search(data: Seq<u8>) -> Seq<Seq<char>> {
    non_empty(readable(read_lines(data)))
}

/// Calls `String::from_utf8`, which takes the bytes as text if they are valid
/// UTF-8, and fails if they are not.
#[verifier::external_body]
fn decode(bytes: Vec<u8>) -> (text: Option<String>)
    ensures
        match text {
            Some(s) => line_text(bytes@) == Some(s@),
            None => line_text(bytes@) is None,
        },
{
    String::from_utf8(bytes).ok()
}

/// The first line of `data` and what follows it.
fn split_first_line(data: &[u8]) -> (parts: Option<(&[u8], &[u8])>)
    ensures
        match parts {
            Some((line, rest)) => first_line(data@, 10u8, 13u8) == Some((line@, rest@)),
            None => first_line(data@, 10u8, 13u8) is None,
        },
{
    if data.len() == 0 {
        return None;
    }
    let mut end: usize = 0;
    while end < data.len() && data[end] != 10
        invariant
            end <= data.len(),
            forall|k: int| 0 <= k < end ==> data@[k] != 10,
        decreases data.len() - end,
    {
        end += 1;
    }
    if end == data.len() {
        let rest = slice_subrange(data, end, end);
        assert(rest@ =~= Seq::empty());
        Some((data, rest))
    } else {
        proof {
            assert(data@.contains(10u8)) by {
                assert(data@[end as int] == 10);
            }
            data@.index_of_first_ensures(10u8);
            assert(data@.index_of_first(10u8)->0 == end);
        }
        let rest = slice_subrange(data, end + 1, data.len());
        assert(rest@ =~= data@.skip(end + 1));
        assert(data@.subrange(0, end as int) =~= data@.take(end as int));
        if end > 0 && data[end - 1] == 13 {
            let line = slice_subrange(data, 0, end - 1);
            assert(line@ =~= data@.take(end as int).drop_last());
            Some((line, rest))
        } else {
            Some((slice_subrange(data, 0, end), rest))
        }
    }
}

/// The lines of `data`, each as text, or `None` where it is not valid UTF-8.
pub fn transcript_lines(data: &[u8]) -> (lines: Vec<Option<String>>)
    ensures
        option_texts_of(lines@) == read_lines(data@),
{
    let mut lines: Vec<Option<String>> = Vec::new();
    let mut rest: &[u8] = data;
    assert(option_texts_of(lines@) + read_lines(rest@) =~= read_lines(data@));
    loop
        invariant
            option_texts_of(lines@) + read_lines(rest@) == read_lines(data@),
        ensures
            option_texts_of(lines@) == read_lines(data@),
        decreases rest@.len(),
    {
        proof {
            lemma_first_line_shrinks(rest@, 10u8, 13u8);
        }
        match split_first_line(rest) {
            None => {
                assert(read_lines(rest@) =~= Seq::empty());
                assert(option_texts_of(lines@) =~= read_lines(data@));
                break;
            },
            Some((line, after)) => {
                let ghost old_lines = lines@;
                let ghost old_rest = rest@;
                lines.push(decode(slice_to_vec(line)));
                rest = after;
                proof {
                    assert(read_lines(old_rest) =~= seq![line_text(line@)] + read_lines(rest@));
                    assert(option_texts_of(lines@) =~= option_texts_of(old_lines).push(line_text(line@)));
                    assert(option_texts_of(lines@) + read_lines(rest@) =~= option_texts_of(old_lines)
                        + read_lines(old_rest));
                }
            },
        }
    }
    lines
}

/// The texts of the lines from index `start` on that read as text and are not
/// empty.
fn texts_to_parse(lines: &Vec<Option<String>>, start: usize) -> (texts: Vec<String>)
    requires
        start <= lines@.len(),
    ensures
        texts_of(texts@) == non_empty(readable(option_texts_of(lines@).skip(start as int))),
{
    let ghost views = option_texts_of(lines@).skip(start as int);
    let mut kept: Vec<String> = Vec::new();
    let mut i: usize = start;
    assert(texts_of(kept@) =~= Seq::empty());
    while i < lines.len()
        invariant
            start <= i <= lines.len(),
            views == option_texts_of(lines@).skip(start as int),
            texts_of(kept@) == non_empty(readable(views.take(i - start))),
        decreases lines.len() - i,
    {
        let ghost before = readable(views.take(i - start));
        let ghost after = readable(views.take(i - start + 1));
        let ghost old_kept = kept@;
        assert(views.take(i - start + 1).drop_last() =~= views.take(i - start));
        assert(views.take(i - start + 1).last() == text_of(lines@[i as int]));
        if let Some(line) = &lines[i] {
            assert(after == before.push(line@));
            assert(after.drop_last() =~= before);
            if !line.as_str().is_empty() {
                kept.push(line.clone());
                assert(texts_of(kept@) =~= texts_of(old_kept).push(line@));
            }
        }
        i += 1;
    }
    assert(views.take(lines.len() - start) =~= views);
    kept
}

/// The lines of the transcript `data` from byte `offset` on that are to be
/// parsed.
///
/// Where `offset` is at or behind the end there are none.  Otherwise the first
/// line is left out, since `offset` may lie in the middle of it, and so is every
/// other one that is empty or not valid UTF-8.
pub fn delta_lines(data: &[u8], offset: u64) -> (lines: Vec<String>)
    ensures
        texts_of(lines@) == lines_from(data@, offset as int),
{
    if data.len() as u64 <= offset {
        let none: Vec<String> = Vec::new();
        assert(texts_of(none@) =~= Seq::empty());
        return none;
    }
    let start: usize = offset as usize;
    let tail = slice_subrange(data, start, data.len());
    assert(tail@ =~= data@.skip(offset as int));
    let lines = transcript_lines(tail);
    proof {
        let views = option_texts_of(lines@);
        assert(first_line(tail@, 10u8, 13u8) is Some);
        assert(all_lines(tail@, 10u8, 13u8).len() > 0);
        assert(views.len() == lines@.len());
        assert(views.skip(1) =~= views.drop_first());
    }
    texts_to_parse(&lines, 1)
}

/// The lines of the transcript `data` that are to be searched for the latest
/// token usage: all but those that are empty or not valid UTF-8.
pub fn usage_lines(data: &[u8]) -> (lines: Vec<String>)
    ensures
        texts_of(lines@) == lines_to_search(data@),
{
    let lines = transcript_lines(data);
    assert(option_texts_of(lines@).skip(0) =~= option_texts_of(lines@));
    texts_to_parse(&lines, 0)
}

// ── Laws ─────────────────────────────────────────────────────────────────────

proof fn lemma_readable_append(earlier: Seq<Option<Seq<char>>>, later: Seq<Option<Seq<char>>>)
    ensures
        readable(earlier + later) == readable(earlier) + readable(later),
    decreases later.len(),
{
    if later.len() == 0 {
        assert(earlier + later =~= earlier);
        assert(readable(earlier) + readable(later) =~= readable(earlier));
    } else {
        assert((earlier + later).drop_last() =~= earlier + later.drop_last());
        lemma_readable_append(earlier, later.drop_last());
        assert(readable(earlier + later) =~= readable(earlier) + readable(later));
    }
}

proof fn lemma_non_empty_append(earlier: Seq<Seq<char>>, later: Seq<Seq<char>>)
    ensures
        non_empty(earlier + later) == non_empty(earlier) + non_empty(later),
    decreases later.len(),
{
    if later.len() == 0 {
        assert(earlier + later =~= earlier);
        assert(non_empty(earlier) + non_empty(later) =~= non_empty(earlier));
    } else {
        assert((earlier + later).drop_last() =~= earlier + later.drop_last());
        lemma_non_empty_append(earlier, later.drop_last());
        assert(non_empty(earlier + later) =~= non_empty(earlier) + non_empty(later));
    }
}

/// Lines appended to a transcript of whole lines leave those lines as they read
/// before.
pub proof fn law_appending_keeps_lines(earlier: Seq<u8>, later: Seq<u8>)
    requires
        earlier.len() > 0 ==> earlier.last() == 10,
    ensures
        read_lines(earlier + later) == read_lines(earlier) + read_lines(later),
{
    law_lines_append(earlier, later, 10u8, 13u8);
    assert(read_lines(earlier + later) =~= read_lines(earlier) + read_lines(later));
}

/// The lines of a transcript that has any bytes are at least one.
proof fn lemma_some_line(data: Seq<u8>)
    requires
        data.len() > 0,
    ensures
        read_lines(data).len() > 0,
{
    assert(first_line(data, 10u8, 13u8) is Some);
}

/// What is appended to a transcript of whole lines adds all its readable,
/// non-empty lines to the delta from an earlier offset, and changes nothing
/// else of it.
pub proof fn law_appended_lines_join_the_delta(earlier: Seq<u8>, later: Seq<u8>, offset: int)
    requires
        0 <= offset < earlier.len(),
        earlier.last() == 10,
    ensures
        lines_from(earlier + later, offset) == lines_from(earlier, offset) + non_empty(
            readable(read_lines(later)),
        ),
{
    let tail = earlier.skip(offset);
    assert((earlier + later).skip(offset) =~= tail + later);
    law_appending_keeps_lines(tail, later);
    lemma_some_line(tail);
    let old_lines = read_lines(tail).drop_first();
    let new_lines = read_lines(later);
    assert((read_lines(tail) + new_lines).drop_first() =~= old_lines + new_lines);
    lemma_readable_append(old_lines, new_lines);
    lemma_non_empty_append(readable(old_lines), readable(new_lines));
}

/// At most the first line after an offset is lost: from there on, every readable,
/// non-empty line is handed out.
pub proof fn law_at_most_one_line_is_lost(data: Seq<u8>, offset: int)
    requires
        0 <= offset < data.len(),
    ensures
        lines_to_search(data.skip(offset)) == non_empty(
            readable(read_lines(data.skip(offset)).take(1)),
        ) + lines_from(data, offset),
        lines_to_search(data.skip(offset)).len() <= lines_from(data, offset).len() + 1,
{
    let lines = read_lines(data.skip(offset));
    lemma_some_line(data.skip(offset));
    assert(lines.take(1) + lines.drop_first() =~= lines);
    lemma_readable_append(lines.take(1), lines.drop_first());
    lemma_non_empty_append(readable(lines.take(1)), readable(lines.drop_first()));
    reveal_with_fuel(readable, 2);
    reveal_with_fuel(non_empty, 2);
    assert(lines.take(1).drop_last() =~= Seq::empty());
    assert(readable(lines.take(1)).len() <= 1);
    if readable(lines.take(1)).len() == 1 {
        assert(readable(lines.take(1)).drop_last() =~= Seq::empty());
    }
}

/// The search for usage covers the lines that were there and then those that
/// were appended.
pub proof fn law_search_covers_appended_lines(earlier: Seq<u8>, later: Seq<u8>)
    requires
        earlier.len() > 0 ==> earlier.last() == 10,
    ensures
        lines_to_search(earlier + later) == lines_to_search(earlier) + lines_to_search(later),
{
    law_appending_keeps_lines(earlier, later);
    lemma_readable_append(read_lines(earlier), read_lines(later));
    lemma_non_empty_append(readable(read_lines(earlier)), readable(read_lines(later)));
}

/// Each line of a transcript reads as its text where it is valid UTF-8, and as none
/// where it is not.  A line ends at a newline byte, and a carriage return before that
/// is not part of it.
pub proof fn law_lines_are_read_in_order(line: Seq<u8>, rest: Seq<u8>)
    requires
        !line.contains(10u8),
    ensures
        ({
            let body = if line.len() > 0 && line.last() == 13 {
                line.drop_last()
            } else {
                line
            };
            read_lines(line.push(10) + rest) == seq![
                if valid_utf8(body) {
                    Some(decode_utf8(body))
                } else {
                    None
                },
            ] + read_lines(rest)
        }),
        line.len() > 0 ==> read_lines(line) == seq![
            if valid_utf8(line) {
                Some(decode_utf8(line))
            } else {
                None
            },
        ],
        read_lines(Seq::empty()).len() == 0,
{
    law_lines_end_at_newlines(line, rest, 10u8, 13u8);
    let body = if line.len() > 0 && line.last() == 13 {
        line.drop_last()
    } else {
        line
    };
    assert(read_lines(line.push(10) + rest) =~= seq![line_text(body)] + read_lines(rest));
    if line.len() > 0 {
        assert(read_lines(line) =~= seq![line_text(line)]);
    }
}

/// The lines that are handed out of a whole transcript: every line that is valid
/// UTF-8 and not empty, in order, as its text, and no other.
pub proof fn law_every_readable_line_is_searched(line: Seq<u8>, rest: Seq<u8>)
    requires
        !line.contains(10u8),
    ensures
        ({
            let body = if line.len() > 0 && line.last() == 13 {
                line.drop_last()
            } else {
                line
            };
            lines_to_search(line.push(10) + rest) == if valid_utf8(body) && decode_utf8(body).len()
                > 0 {
                seq![decode_utf8(body)] + lines_to_search(rest)
            } else {
                lines_to_search(rest)
            }
        }),
        line.len() > 0 ==> lines_to_search(line) == if valid_utf8(line) && decode_utf8(line).len()
            > 0 {
            seq![decode_utf8(line)]
        } else {
            Seq::empty()
        },
        lines_to_search(Seq::empty()).len() == 0,
{
    law_lines_are_read_in_order(line, rest);
    let body = if line.len() > 0 && line.last() == 13 {
        line.drop_last()
    } else {
        line
    };
    lemma_single_line(line_text(body));
    lemma_single_line(line_text(line));
    let first = seq![line_text(body)];
    lemma_readable_append(first, read_lines(rest));
    lemma_non_empty_append(readable(first), readable(read_lines(rest)));
    assert(Seq::<Seq<char>>::empty() + lines_to_search(rest) =~= lines_to_search(rest));
}

/// What is kept of a single line.
proof fn lemma_single_line(line: Option<Seq<char>>)
    ensures
        non_empty(readable(seq![line])) == if line is Some && line->0.len() > 0 {
            seq![line->0]
        } else {
            Seq::empty()
        },
{
    reveal_with_fuel(readable, 2);
    reveal_with_fuel(non_empty, 2);
    assert(seq![line].drop_last() =~= Seq::<Option<Seq<char>>>::empty());
    if let Some(text) = line {
        assert(readable(seq![line]) =~= seq![text]);
        assert(readable(seq![line]).drop_last() =~= Seq::<Seq<char>>::empty());
        if text.len() > 0 {
            assert(non_empty(readable(seq![line])) =~= seq![text]);
        }
    }
}

/// The delta from an offset leaves out what stands between the offset and the next
/// newline, whatever that is, and hands out all that follows.  Where no newline
/// follows the offset, and where the offset is at or behind the end, there is
/// nothing.
pub proof fn law_delta_starts_at_the_next_line(head: Seq<u8>, cut: Seq<u8>, rest: Seq<u8>)
    requires
        !cut.contains(10u8),
    ensures
        lines_from(head + cut.push(10) + rest, head.len() as int) == lines_to_search(rest),
        lines_from(head + cut, head.len() as int).len() == 0,
        forall|offset: int| offset >= head.len() ==> #[trigger] lines_from(head, offset).len() == 0,
{
    let data = head + cut.push(10) + rest;
    assert(data.skip(head.len() as int) =~= cut.push(10) + rest);
    assert((head + cut).skip(head.len() as int) =~= cut);
    law_lines_are_read_in_order(cut, rest);
    assert(read_lines(cut.push(10) + rest).drop_first() =~= read_lines(rest));
    if cut.len() > 0 {
        assert(read_lines(cut).drop_first() =~= Seq::<Option<Seq<char>>>::empty());
    }
}

} // verus!
