//! Grapheme clusters, words and display widths of text.

use unicode_segmentation::UnicodeSegmentation;
use unicode_width::{UnicodeWidthChar, UnicodeWidthStr};
use vstd::prelude::*;

use crate::text::{byte_len, concat, texts, utf8_len};

verus! {

/// The extended grapheme clusters of a text, as Unicode's segmentation rules
/// give them.
pub uninterp spec fn grapheme_clusters(text: Seq<char>) -> Seq<Seq<char>>;

/// The pieces of a text between its word boundaries, as Unicode's segmentation
/// rules give them.
pub uninterp spec fn word_pieces(text: Seq<char>) -> Seq<Seq<char>>;

/// The number of terminal columns that a text takes.
pub uninterp spec fn display_width(text: Seq<char>) -> nat;

/// The number of terminal columns that a character takes; nothing for a
/// control character.
pub uninterp spec fn char_columns(c: char) -> Option<nat>;

/// Unicode's `Alphabetic` and numeric characters.
pub uninterp spec fn is_alphanumeric(c: char) -> bool;

/// `UnicodeSegmentation::graphemes` in its extended form. The clusters are a
/// function of the text alone, none is empty, and together they are the text.
#[verifier::external_body]
pub(crate) fn graphemes(text: &str) -> (clusters: Vec<String>)
    ensures
        texts(clusters@) == grapheme_clusters(text@),
        concat(texts(clusters@)) == text@,
        forall|i: int| 0 <= i < clusters.len() ==> (#[trigger] clusters@[i])@.len() > 0,
{
    UnicodeSegmentation::graphemes(text, true).map(str::to_owned).collect()
}

/// `UnicodeSegmentation::split_word_bounds`. The pieces are a function of the
/// text alone, none is empty, and together they are the text.
#[verifier::external_body]
pub(crate) fn word_bounds(text: &str) -> (pieces: Vec<String>)
    ensures
        texts(pieces@) == word_pieces(text@),
        concat(texts(pieces@)) == text@,
        forall|i: int| 0 <= i < pieces.len() ==> (#[trigger] pieces@[i])@.len() > 0,
{
    text.split_word_bounds().map(str::to_owned).collect()
}

/// `UnicodeWidthStr::width`. The width is a function of the text alone. A
/// character adds at most as many columns as it has bytes: those of one byte add
/// at most one, and a second one comes only with a variation selector after it,
/// which has three bytes and adds no more.
#[verifier::external_body]
pub(crate) fn text_width(text: &str) -> (width: usize)
    ensures
        width == display_width(text@),
        width <= byte_len(text@),
{
    UnicodeWidthStr::width(text)
}

/// `UnicodeWidthChar::width`. The width is a function of the character alone,
/// and at most the number of its bytes.
#[verifier::external_body]
pub(crate) fn char_width(c: char) -> (width: Option<usize>)
    ensures
        match width {
            Some(width) => char_columns(c) == Some(width as nat) && width <= utf8_len(c),
            None => char_columns(c) is None,
        },
{
    UnicodeWidthChar::width(c)
}

/// `char::is_alphanumeric` of the standard library: a function of the character
/// alone.
#[verifier::external_body]
pub(crate) fn char_is_alphanumeric(c: char) -> (found: bool)
    ensures
        found == is_alphanumeric(c),
{
    c.is_alphanumeric()
}

/// The columns that a grapheme cluster takes on a line: at least one.
pub open spec fn cluster_width(cluster: Seq<char>) -> nat {
    if display_width(cluster) == 0 {
        1
    } else {
        display_width(cluster)
    }
}

/// The columns that a grapheme cluster takes on a line: at least one.
pub fn columns_of(cluster: &str) -> (columns: usize)
    ensures
        columns == cluster_width(cluster@),
        1 <= columns,
        columns <= byte_len(cluster@) || columns == 1,
{
    let width: usize = text_width(cluster);
    if width == 0 {
        1
    } else {
        width
    }
}

} // verus!
