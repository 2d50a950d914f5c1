//! Properties that hold of every well-formed [`UnicodeString`], stated on
//! their own so that callers can rely on them by name.

use vstd::prelude::*;

verus! {

use crate::measure::grapheme_clusters;
use crate::segment::fit_count;
use crate::segment::lemma_fit_count_props;
use crate::segment::size_sum;
use crate::segment::texts_of;
use crate::segment::width_sum;
use crate::text::concat_texts;
use crate::text::lemma_utf8_len_positive;
use crate::text::utf8_len;
use crate::unicode_string::UnicodeString;

/// Concatenating every segment's text in logical order reproduces the
/// original string exactly.
pub proof fn lemma_segments_rebuild_string(us: UnicodeString)
    requires
        us.wf(),
    ensures
        concat_texts(texts_of(us.vec_segment@)) == us.string@,
{
}

/// Each segment's display-column offset is the sum of the display widths of
/// the segments before it.
pub proof fn lemma_display_col_offset_is_prefix_width(us: UnicodeString, i: int)
    requires
        us.wf(),
        0 <= i < us.vec_segment@.len(),
    ensures
        us.vec_segment@[i].display_col_offset == width_sum(us.vec_segment@, i),
{
}

/// The byte sizes of the segments sum to the byte length of the string, and
/// the segment count is the string's grapheme-cluster count.
pub proof fn lemma_aggregates_match_segments(us: UnicodeString)
    requires
        us.wf(),
    ensures
        size_sum(us.vec_segment@, us.vec_segment@.len() as int) == utf8_len(us.string@),
        us.grapheme_cluster_segment_count == grapheme_clusters(us.string@).len(),
{
    assert(texts_of(us.vec_segment@).len() == us.vec_segment@.len());
}

/// Adjacent segments are contiguous in memory: each segment begins exactly
/// where the previous one ends, so byte offsets strictly increase.
pub proof fn lemma_segments_contiguous(us: UnicodeString, i: int)
    requires
        us.wf(),
        0 <= i,
        i + 1 < us.vec_segment@.len(),
    ensures
        us.vec_segment@[i].byte_offset + us.vec_segment@[i].byte_size == us.vec_segment@[i
            + 1].byte_offset,
        us.vec_segment@[i].byte_offset < us.vec_segment@[i + 1].byte_offset,
{
    let segs = us.vec_segment@;
    assert(size_sum(segs, i + 1) == size_sum(segs, i) + segs[i].byte_size);
    lemma_utf8_len_positive(segs[i].string@);
}

/// What truncation to a column budget keeps: a whole-cluster prefix whose
/// summed width fits the budget, and that no longer whole-cluster prefix
/// also fits.
pub proof fn lemma_truncate_prefix_is_maximal(us: UnicodeString, display_cols: int)
    requires
        us.wf(),
        display_cols >= 0,
    ensures
        0 <= fit_count(us.vec_segment@, display_cols) <= us.vec_segment@.len(),
        width_sum(us.vec_segment@, fit_count(us.vec_segment@, display_cols)) <= display_cols,
        fit_count(us.vec_segment@, display_cols) < us.vec_segment@.len() ==> width_sum(
            us.vec_segment@,
            fit_count(us.vec_segment@, display_cols) + 1,
        ) > display_cols,
{
    lemma_fit_count_props(us.vec_segment@, display_cols);
}

} // verus!
