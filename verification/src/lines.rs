//! Line counting.
//!
//! A line ends at a line feed. A carriage return directly before the line
//! feed belongs to the same terminator, so `"\r\n"` ends one line, and a
//! carriage return on its own ends none. The last line needs no terminator.

use vstd::prelude::*;
use vstd::utf8::*;

verus! {

/// The byte that encodes the line feed.
pub const LINE_FEED: u8 = 0x0A;

/// The number of positions of `s` that hold `x`.
pub open spec fn occurrences<T>(s: Seq<T>, x: T) -> nat
    decreases s.len(),
{
    if s.len() == 0 {
        0
    } else {
        occurrences(s.drop_last(), x) + if s.last() == x {
            1nat
        } else {
            0nat
        }
    }
}

/// The number of line terminators in `text`.
pub open spec fn terminator_count(text: Seq<char>) -> nat {
    occurrences(text, '\n')
}

/// Whether `text` ends inside a line: it is not empty and no terminator
/// closes its last line.
pub open spec fn ends_in_open_line(text: Seq<char>) -> bool {
    text.len() > 0 && text.last() != '\n'
}

/// The number of lines of `text`: one for each terminator, and one more for
/// a last line that no terminator closes.
pub open spec fn line_count(text: Seq<char>) -> nat {
    terminator_count(text) + if ends_in_open_line(text) {
        1nat
    } else {
        0nat
    }
}

/// Occurrences add up over concatenation.
pub proof fn lemma_occurrences_concat<T>(a: Seq<T>, b: Seq<T>, x: T)
    ensures
        occurrences(a + b, x) == occurrences(a, x) + occurrences(b, x),
    decreases b.len(),
{
    if b.len() == 0 {
        assert(a + b =~= a);
    } else {
        assert((a + b).drop_last() =~= a + b.drop_last());
        lemma_occurrences_concat(a, b.drop_last(), x);
    }
}

/// A value occurs at most once per position.
pub proof fn lemma_occurrences_bounded<T>(s: Seq<T>, x: T)
    ensures
        occurrences(s, x) <= s.len(),
    decreases s.len(),
{
    if s.len() > 0 {
        lemma_occurrences_bounded(s.drop_last(), x);
    }
}

/// A text has at most as many lines as characters, and at least one line
/// unless it is empty.
pub proof fn lemma_line_count_bounds(text: Seq<char>)
    ensures
        line_count(text) <= text.len(),
        text.len() > 0 ==> line_count(text) >= 1,
{
    if text.len() > 0 {
        lemma_occurrences_bounded(text.drop_last(), '\n');
    }
}

/// A line feed between two texts keeps their lines apart: where the first
/// text ends inside a line, the joined text has the lines of both. This holds
/// for an empty second text too, so a terminator at the very end adds no line.
pub proof fn lemma_line_feed_separates(a: Seq<char>, b: Seq<char>)
    requires
        ends_in_open_line(a),
    ensures
        line_count(a + seq!['\n'] + b) == line_count(a) + line_count(b),
{
    let joined: Seq<char> = a + seq!['\n'] + b;
    lemma_occurrences_concat(a, seq!['\n'], '\n');
    lemma_occurrences_concat(a + seq!['\n'], b, '\n');
    reveal_with_fuel(occurrences, 2);
    if b.len() > 0 {
        assert(joined.last() == b.last());
    } else {
        assert(joined.last() == '\n');
    }
}

/// A carriage return directly before a line feed is part of the terminator:
/// the pair ends one line, as the line feed alone does.
pub proof fn lemma_carriage_return_joins_terminator(a: Seq<char>, b: Seq<char>)
    ensures
        line_count(a + seq!['\r', '\n'] + b) == line_count(a + seq!['\n'] + b),
{
    let with_pair: Seq<char> = a + seq!['\r', '\n'] + b;
    let with_feed: Seq<char> = a + seq!['\n'] + b;
    lemma_occurrences_concat(a, seq!['\r', '\n'], '\n');
    lemma_occurrences_concat(a + seq!['\r', '\n'], b, '\n');
    lemma_occurrences_concat(a, seq!['\n'], '\n');
    lemma_occurrences_concat(a + seq!['\n'], b, '\n');
    reveal_with_fuel(occurrences, 3);
    assert(with_pair.last() == with_feed.last());
}

/// No byte with its top bit set is the line feed.
proof fn lemma_high_bytes_are_no_line_feed(b: u8)
    by (bit_vector)
    ensures
        0x80u8 | b != 0x0Au8,
        0xC0u8 | b != 0x0Au8,
        0xE0u8 | b != 0x0Au8,
        0xF0u8 | b != 0x0Au8,
{
}

/// A scalar of one byte is encoded by itself.
proof fn lemma_single_byte_encoding(scalar: u32)
    by (bit_vector)
    requires
        scalar <= 0x7F,
    ensures
        (scalar & 0x7F) as u8 == scalar,
{
}

/// The encoding of one character holds the line feed byte only where the
/// character is the line feed, and then it is that byte alone.
pub proof fn lemma_line_feed_in_scalar(c: char)
    ensures
        encode_scalar(c as u32).len() >= 1,
        occurrences(encode_scalar(c as u32), LINE_FEED) == if c == '\n' {
            1nat
        } else {
            0nat
        },
        encode_scalar(c as u32).last() == LINE_FEED <==> c == '\n',
{
    let scalar: u32 = c as u32;
    reveal_with_fuel(occurrences, 5);
    if has_width_1_encoding(scalar) {
        lemma_single_byte_encoding(scalar);
    } else {
        lemma_high_bytes_are_no_line_feed((scalar & 0x3F) as u8);
        lemma_high_bytes_are_no_line_feed(((scalar >> 6) & 0x3F) as u8);
        lemma_high_bytes_are_no_line_feed(((scalar >> 12) & 0x3F) as u8);
        lemma_high_bytes_are_no_line_feed(((scalar >> 6) & 0x1F) as u8);
        lemma_high_bytes_are_no_line_feed(((scalar >> 12) & 0x0F) as u8);
        lemma_high_bytes_are_no_line_feed(((scalar >> 18) & 0x7) as u8);
    }
}

/// Counting line feed bytes in the UTF-8 encoding of a text counts its
/// terminators, and the encoding ends in that byte exactly where the text ends
/// in a terminator.
pub proof fn lemma_line_feeds_in_encoding(text: Seq<char>)
    ensures
        encode_utf8(text).len() >= text.len(),
        occurrences(encode_utf8(text), LINE_FEED) == terminator_count(text),
        ends_in_open_line(text) <==> encode_utf8(text).len() > 0 && encode_utf8(text).last()
            != LINE_FEED,
    decreases text.len(),
{
    if text.len() > 0 {
        let head: Seq<u8> = encode_scalar(text[0] as u32);
        let rest: Seq<char> = text.drop_first();
        lemma_line_feed_in_scalar(text[0]);
        lemma_line_feeds_in_encoding(rest);
        lemma_occurrences_concat(head, encode_utf8(rest), LINE_FEED);
        assert(text =~= seq![text[0]] + rest);
        lemma_occurrences_concat(seq![text[0]], rest, '\n');
        reveal_with_fuel(occurrences, 2);
        if rest.len() > 0 {
            assert(text.last() == rest.last());
        }
    }
}

/// Counts the lines of `text`.
pub fn count_lines(text: &str) -> (count: usize)
    ensures
        count == line_count(text@),
{
    let bytes = text.as_bytes();
    let n: usize = bytes.len();
    let mut feeds: usize = 0;
    let mut i: usize = 0;
    while i < n
        invariant
            n == bytes@.len(),
            i <= n,
            feeds <= i,
            feeds == occurrences(bytes@.take(i as int), LINE_FEED),
        decreases n - i,
    {
        proof {
            assert(bytes@.take(i + 1).drop_last() =~= bytes@.take(i as int));
        }
        if bytes[i] == LINE_FEED {
            feeds += 1;
        }
        i += 1;
    }
    proof {
        assert(bytes@.take(n as int) =~= bytes@);
        lemma_line_feeds_in_encoding(text@);
        if n > 0 {
            lemma_occurrences_bounded(bytes@.drop_last(), LINE_FEED);
        }
    }
    if n > 0 && bytes[n - 1] != LINE_FEED {
        feeds + 1
    } else {
        feeds
    }
}

} // verus!
