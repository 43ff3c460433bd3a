//! The three counts of a text.

use crate::lines::{
    count_lines, ends_in_open_line, lemma_line_count_bounds, lemma_line_feed_separates, line_count,
};
use crate::segmentation::{
    grapheme_clusters, lacks_alphanumerics, lemma_no_word_without_alphanumerics,
    lemma_pieces_bounded, lemma_wordlike_pieces_are_not_empty, split_graphemes,
    split_unicode_words, unicode_words,
};
use vstd::prelude::*;

verus! {

/// The size of a text along three axes, as mathematical numbers.
pub struct Measurement {
    pub line_count: nat,
    pub word_count: nat,
    pub character_count: nat,
}

/// The measurement of `text`: its lines by their terminators, its words by
/// Unicode word boundaries, its characters as extended grapheme clusters.
pub open spec fn measurement(text: Seq<char>) -> Measurement {
    Measurement {
        line_count: line_count(text),
        word_count: unicode_words(text).len(),
        character_count: grapheme_clusters(text, true).len(),
    }
}

/// The counts of one text.
#[derive(Clone, Copy, Debug, PartialEq, Eq, Structural)]
pub struct Processed {
    pub line_count: usize,
    pub word_count: usize,
    pub character_count: usize,
}

impl View for Processed {
    type V = Measurement;

    open spec fn view(&self) -> Measurement {
        Measurement {
            line_count: self.line_count as nat,
            word_count: self.word_count as nat,
            character_count: self.character_count as nat,
        }
    }
}

impl Processed {
    /// Counts the lines of `text`, and takes the number of words and of
    /// characters from a segmentation that is already at hand.
    pub fn tally(text: &str, words: &[&str], clusters: &[&str]) -> (result: Processed)
        ensures
            result@ == (Measurement {
                line_count: line_count(text@),
                word_count: words@.len(),
                character_count: clusters@.len(),
            }),
    {
        Processed {
            line_count: count_lines(text),
            word_count: words.len(),
            character_count: clusters.len(),
        }
    }
}

/// Measures `text`.
///
/// The result is the measurement of the text's characters and of nothing
/// else, so the same text always measures the same. No count exceeds the
/// number of code points: the empty text measures zero throughout, and any
/// other text has at least one line and one character. A text that holds no
/// letter or digit of ASCII and nothing beyond ASCII, such as one of white
/// space alone, has no word.
pub fn process_text(text: &str) -> (result: Processed)
    ensures
        result@ == measurement(text@),
        result.line_count <= text@.len(),
        result.word_count <= text@.len(),
        result.character_count <= text@.len(),
        text@.len() > 0 ==> result.line_count >= 1 && result.character_count >= 1,
        text@.len() == 0 ==> result == (Processed {
            line_count: 0,
            word_count: 0,
            character_count: 0,
        }),
        lacks_alphanumerics(text@) ==> result.word_count == 0,
{
    let words = split_unicode_words(text);
    let clusters = split_graphemes(text, true);
    proof {
        lemma_wordlike_pieces_are_not_empty(words.deep_view());
        lemma_pieces_bounded(words.deep_view());
        lemma_pieces_bounded(clusters.deep_view());
        lemma_line_count_bounds(text@);
        if lacks_alphanumerics(text@) {
            lemma_no_word_without_alphanumerics(words.deep_view(), text@);
        }
    }
    Processed::tally(text, words.as_slice(), clusters.as_slice())
}

/// Measures what a read of the clipboard gave: nothing where the read failed
/// or the text is empty, else the counts of the text, as `process_text` gives
/// them.
pub fn process_content(content: Option<&str>) -> (result: Option<Processed>)
    ensures
        result is Some <==> content is Some && content->0@.len() > 0,
        result matches Some(counts) ==> {
            &&& counts@ == measurement(content->0@)
            &&& 1 <= counts.line_count <= content->0@.len()
            &&& counts.word_count <= content->0@.len()
            &&& 1 <= counts.character_count <= content->0@.len()
            &&& lacks_alphanumerics(content->0@) ==> counts.word_count == 0
        },
{
    match content {
        Some(text) => {
            if text.is_empty() {
                None
            } else {
                Some(process_text(text))
            }
        },
        None => None,
    }
}

/// The counts of a text are determined by the text: two results that both
/// hold the measurement of one text are the same result.
pub proof fn lemma_counts_are_determined(first: Processed, second: Processed, text: Seq<char>)
    requires
        first@ == measurement(text),
        second@ == measurement(text),
    ensures
        first == second,
{
}

/// Joining two texts by a line feed adds their line counts, where the first
/// text is not empty and ends in no terminator.
pub proof fn lemma_joined_by_line_feed(a: Seq<char>, b: Seq<char>)
    requires
        ends_in_open_line(a),
    ensures
        measurement(a + seq!['\n'] + b).line_count == measurement(a).line_count + measurement(
            b,
        ).line_count,
{
    lemma_line_feed_separates(a, b);
}

} // verus!
