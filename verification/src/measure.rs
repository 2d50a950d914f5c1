//! Names for what the Unicode tables decide, and the trusted boundary to the
//! grapheme segmenter.
//!
//! The exact outcome of grapheme-cluster segmentation and of display-width
//! measurement is a large Unicode data table; the library does not restate it.
//! Each is a pure function of the text alone, so it is given a name here, and
//! the contracts of the library speak of that name.

use unicode_segmentation::UnicodeSegmentation;
use vstd::prelude::*;

verus! {

use crate::text::concat_texts;

/// Display width, in terminal columns, that `unicode_width` assigns to a
/// single codepoint (0 for control and other unrecognized codepoints).
pub uninterp spec fn char_width(c: char) -> nat;

/// Display width, in terminal columns, that `unicode_width` assigns to a
/// string evaluated as a whole.
pub uninterp spec fn str_width(s: Seq<char>) -> nat;

/// The extended grapheme-cluster segmentation of `s`, in order.
pub uninterp spec fn grapheme_clusters(s: Seq<char>) -> Seq<Seq<char>>;

/// The views of a sequence of owned strings.
pub open spec fn views_of_strings(v: Seq<String>) -> Seq<Seq<char>> {
    v.map_values(|t: String| t@)
}

/// Relies on `unicode_segmentation::UnicodeSegmentation::graphemes` with
/// extended grapheme clusters: the clusters are non-empty substrings of the
/// input that, concatenated in order, reproduce it exactly.
#[verifier::external_body]
pub(crate) fn split_graphemes(s: &str) -> (r: Vec<String>)
    ensures
        views_of_strings(r@) == grapheme_clusters(s@),
        concat_texts(views_of_strings(r@)) == s@,
        forall|i: int| #![auto] 0 <= i < r@.len() ==> r@[i]@.len() > 0,
{
    s.graphemes(true).map(|g| g.to_string()).collect()
}

} // verus!
