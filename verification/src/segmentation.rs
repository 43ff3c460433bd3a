//! Word and grapheme segmentation.
//!
//! The rules of UAX #29 fill tables; they are not restated here. The crate
//! `unicode-segmentation` applies them, and this module names what it returns
//! and records the few structural facts that the counts rest on.

use unicode_segmentation::UnicodeSegmentation;
use vstd::prelude::*;

verus! {

/// The words of `text`, in order of appearance, as
/// `UnicodeSegmentation::unicode_words` yields them: the segments between
/// word boundaries that hold a letter or a digit.
pub uninterp spec fn unicode_words(text: Seq<char>) -> Seq<Seq<char>>;

/// The grapheme clusters of `text`, in order, as
/// `UnicodeSegmentation::graphemes` yields them: extended clusters where
/// `is_extended` holds, legacy clusters where it does not.
pub uninterp spec fn grapheme_clusters(text: Seq<char>, is_extended: bool) -> Seq<Seq<char>>;

/// Whether `c` can be a letter or a digit at all: within ASCII only the
/// letters and digits are, and beyond ASCII the Unicode tables decide.
pub open spec fn may_be_alphanumeric(c: char) -> bool {
    ||| 'a' <= c <= 'z'
    ||| 'A' <= c <= 'Z'
    ||| '0' <= c <= '9'
    ||| c > '\x7f'
}

/// Whether no character of `text` can be a letter or a digit, as in a text of
/// ASCII white space and punctuation.
pub open spec fn lacks_alphanumerics(text: Seq<char>) -> bool {
    forall|i: int| 0 <= i < text.len() ==> !may_be_alphanumeric(#[trigger] text[i])
}

/// Every piece holds at least one character.
pub open spec fn no_piece_is_empty(pieces: Seq<Seq<char>>) -> bool {
    forall|i: int| 0 <= i < pieces.len() ==> (#[trigger] pieces[i]).len() > 0
}

/// Every piece holds a character that can be a letter or a digit.
pub open spec fn each_piece_is_wordlike(pieces: Seq<Seq<char>>) -> bool {
    forall|i: int|
        0 <= i < pieces.len() ==> !lacks_alphanumerics(#[trigger] pieces[i])
}

/// Every character of every piece occurs in `text`.
pub open spec fn drawn_from(pieces: Seq<Seq<char>>, text: Seq<char>) -> bool {
    forall|i: int, k: int|
        0 <= i < pieces.len() && 0 <= k < pieces[i].len() ==> text.contains(
            #[trigger] pieces[i][k],
        )
}

/// There are at most as many non-empty pieces as they hold characters.
pub proof fn lemma_pieces_bounded(pieces: Seq<Seq<char>>)
    requires
        no_piece_is_empty(pieces),
    ensures
        pieces.len() <= pieces.flatten().len(),
    decreases pieces.len(),
{
    if pieces.len() > 0 {
        let rest: Seq<Seq<char>> = pieces.drop_first();
        assert forall|i: int| 0 <= i < rest.len() implies (#[trigger] rest[i]).len() > 0 by {
            assert(rest[i] == pieces[i + 1]);
        }
        lemma_pieces_bounded(rest);
        assert(pieces[0].len() > 0);
    }
}

/// Word-like pieces are not empty.
pub proof fn lemma_wordlike_pieces_are_not_empty(pieces: Seq<Seq<char>>)
    requires
        each_piece_is_wordlike(pieces),
    ensures
        no_piece_is_empty(pieces),
{
    assert forall|i: int| 0 <= i < pieces.len() implies (#[trigger] pieces[i]).len() > 0 by {
        assert(!lacks_alphanumerics(pieces[i]));
    }
}

/// A text without anything that can be a letter or a digit yields no
/// word-like piece.
pub proof fn lemma_no_word_without_alphanumerics(pieces: Seq<Seq<char>>, text: Seq<char>)
    requires
        each_piece_is_wordlike(pieces),
        drawn_from(pieces, text),
        lacks_alphanumerics(text),
    ensures
        pieces.len() == 0,
{
    if pieces.len() > 0 {
        let word: Seq<char> = pieces[0];
        assert(!lacks_alphanumerics(word));
        let k: int = choose|k: int| 0 <= k < word.len() && may_be_alphanumeric(#[trigger] word[k]);
        assert(text.contains(pieces[0][k]));
    }
}

/// Calls `UnicodeSegmentation::unicode_words` on `text` and collects the
/// words.
///
/// Trusted: the words are the named result; each holds a letter or a digit,
/// which within ASCII are the ASCII letters and digits; each is made of
/// characters of `text`; and, being separate stretches of `text`, together
/// they hold no more characters than `text` does.
#[verifier::external_body]
pub(crate) fn split_unicode_words<'a>(text: &'a str) -> (words: Vec<&'a str>)
    ensures
        words.deep_view() == unicode_words(text@),
        each_piece_is_wordlike(words.deep_view()),
        drawn_from(words.deep_view(), text@),
        words.deep_view().flatten().len() <= text@.len(),
{
    text.unicode_words().collect()
}

/// Calls `UnicodeSegmentation::graphemes` on `text` and collects the
/// clusters.
///
/// Trusted: the clusters are the named result; none is empty; and they cut
/// `text` up without remainder, so that joined in order they are `text`.
#[verifier::external_body]
pub(crate) fn split_graphemes<'a>(text: &'a str, is_extended: bool) -> (clusters: Vec<&'a str>)
    ensures
        clusters.deep_view() == grapheme_clusters(text@, is_extended),
        no_piece_is_empty(clusters.deep_view()),
        clusters.deep_view().flatten() == text@,
{
    text.graphemes(is_extended).collect()
}

} // verus!
