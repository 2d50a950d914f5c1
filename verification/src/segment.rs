//! One grapheme cluster of a string, with its position bookkeeping, and the
//! specification functions that describe an ordered sequence of such segments.

use vstd::prelude::*;

verus! {

use crate::measure::str_width;
use crate::text::utf8_len;

/// One grapheme cluster instance inside an owning string.
#[derive(Debug)]
pub struct GraphemeClusterSegment {
    /// The exact substring (one or more codepoints) forming this cluster.
    pub string: String,
    /// Start offset, in bytes, within the owning string.
    pub byte_offset: usize,
    /// Terminal columns this cluster occupies, measured on the whole cluster.
    pub unicode_width: usize,
    /// Zero-based ordinal among the clusters of the owning string.
    pub logical_index: usize,
    /// Length in bytes of `string`.
    pub byte_size: usize,
    /// Cumulative display column at which this cluster begins.
    pub display_col_offset: usize,
}

impl GraphemeClusterSegment {
    /// The per-segment fields agree with the cluster text itself.
    pub open spec fn wf(self) -> bool {
        &&& self.string@.len() > 0
        &&& self.byte_size == utf8_len(self.string@)
        &&& self.unicode_width == str_width(self.string@)
    }
}

impl Clone for GraphemeClusterSegment {
    fn clone(&self) -> (r: Self)
        ensures
            r == *self,
    {
        GraphemeClusterSegment {
            string: self.string.clone(),
            byte_offset: self.byte_offset,
            unicode_width: self.unicode_width,
            logical_index: self.logical_index,
            byte_size: self.byte_size,
            display_col_offset: self.display_col_offset,
        }
    }
}

/// The cluster texts of the segments, in order.
pub open spec fn texts_of(segs: Seq<GraphemeClusterSegment>) -> Seq<Seq<char>> {
    segs.map_values(|seg: GraphemeClusterSegment| seg.string@)
}

/// Sum of the display widths of the first `i` segments.
pub open spec fn width_sum(segs: Seq<GraphemeClusterSegment>, i: int) -> nat
    decreases i,
{
    if i <= 0 {
        0
    } else {
        (width_sum(segs, i - 1) + segs[i - 1].unicode_width) as nat
    }
}

/// Sum of the byte sizes of the first `i` segments.
pub open spec fn size_sum(segs: Seq<GraphemeClusterSegment>, i: int) -> nat
    decreases i,
{
    if i <= 0 {
        0
    } else {
        (size_sum(segs, i - 1) + segs[i - 1].byte_size) as nat
    }
}

/// Positional bookkeeping of a segment sequence: each segment is numbered by
/// its position and carries the cumulative byte and column offsets of
/// everything before it.
pub open spec fn seg_positions_wf(segs: Seq<GraphemeClusterSegment>) -> bool {
    forall|i: int|
        #![trigger segs[i]]
        0 <= i < segs.len() ==> {
            &&& segs[i].logical_index == i
            &&& segs[i].byte_offset == size_sum(segs, i)
            &&& segs[i].display_col_offset == width_sum(segs, i)
        }
}

/// Each segment agrees with its own cluster text: non-empty, with its
/// measured byte size and display width.
pub open spec fn seg_measures_wf(segs: Seq<GraphemeClusterSegment>) -> bool {
    forall|i: int| #![trigger segs[i]] 0 <= i < segs.len() ==> segs[i].wf()
}

/// A well-formed segment sequence.
pub open spec fn seg_seq_wf(segs: Seq<GraphemeClusterSegment>) -> bool {
    seg_positions_wf(segs) && seg_measures_wf(segs)
}

/// Whether display column `col` falls in the half-open column range of `seg`.
pub open spec fn col_in_seg(seg: GraphemeClusterSegment, col: int) -> bool {
    seg.display_col_offset <= col < seg.display_col_offset + seg.unicode_width
}

/// Index of the first segment whose column range contains `col`; the length
/// of the sequence when no segment does.
pub open spec fn col_index(segs: Seq<GraphemeClusterSegment>, col: int) -> int
    decreases segs.len(),
{
    if segs.len() == 0 {
        0
    } else if col_in_seg(segs[0], col) {
        0
    } else {
        1 + col_index(segs.drop_first(), col)
    }
}

/// How many whole leading segments fit into `avail` display columns, taking
/// segments greedily from the left.
pub open spec fn fit_count(segs: Seq<GraphemeClusterSegment>, avail: int) -> int
    decreases segs.len(),
{
    if segs.len() == 0 {
        0
    } else if avail < segs[0].unicode_width {
        0
    } else {
        1 + fit_count(segs.drop_first(), avail - segs[0].unicode_width)
    }
}

/// The prefix sums look only at the first `i` segments.
pub proof fn lemma_sum_prefix_agree(
    s1: Seq<GraphemeClusterSegment>,
    s2: Seq<GraphemeClusterSegment>,
    i: int,
)
    requires
        i <= s1.len(),
        i <= s2.len(),
        forall|j: int| 0 <= j < i ==> s1[j] == s2[j],
    ensures
        width_sum(s1, i) == width_sum(s2, i),
        size_sum(s1, i) == size_sum(s2, i),
    decreases i,
{
    if i > 0 {
        lemma_sum_prefix_agree(s1, s2, i - 1);
    }
}

/// Prefix width sums grow with the prefix.
pub proof fn lemma_width_sum_monotone(segs: Seq<GraphemeClusterSegment>, i: int, j: int)
    requires
        0 <= i <= j,
    ensures
        width_sum(segs, i) <= width_sum(segs, j),
    decreases j,
{
    if i < j {
        lemma_width_sum_monotone(segs, i, j - 1);
    }
}

/// What `col_index` returns: the first containing segment, or the length when
/// no segment's column range contains `col`.
pub proof fn lemma_col_index_props(segs: Seq<GraphemeClusterSegment>, col: int)
    ensures
        0 <= col_index(segs, col) <= segs.len(),
        col_index(segs, col) < segs.len() ==> col_in_seg(segs[col_index(segs, col)], col),
        forall|j: int| 0 <= j < col_index(segs, col) ==> !col_in_seg(#[trigger] segs[j], col),
    decreases segs.len(),
{
    if segs.len() > 0 && !col_in_seg(segs[0], col) {
        lemma_col_index_props(segs.drop_first(), col);
        let tail = segs.drop_first();
        let k = col_index(segs, col);
        assert(k == 1 + col_index(tail, col));
        if k < segs.len() {
            assert(segs[k] == tail[k - 1]);
        }
        assert forall|j: int| 0 <= j < k implies !col_in_seg(#[trigger] segs[j], col) by {
            if j > 0 {
                assert(segs[j] == tail[j - 1]);
            }
        }
    }
}

/// The first match pins `col_index` down.
pub proof fn lemma_col_index_of_match(segs: Seq<GraphemeClusterSegment>, col: int, j: int)
    requires
        0 <= j < segs.len(),
        col_in_seg(segs[j], col),
        forall|i: int| 0 <= i < j ==> !col_in_seg(#[trigger] segs[i], col),
    ensures
        col_index(segs, col) == j,
{
    lemma_col_index_props(segs, col);
    let k = col_index(segs, col);
    if k < j {
        assert(col_in_seg(segs[k], col));
        assert(false);
    }
    if k > j {
        assert(!col_in_seg(segs[j], col));
        assert(false);
    }
}

/// In a well-formed sequence, every in-range column lies in some segment.
pub proof fn lemma_col_covered(segs: Seq<GraphemeClusterSegment>, n: int, col: int)
    requires
        seg_positions_wf(segs),
        0 <= n <= segs.len(),
        0 <= col < width_sum(segs, n),
    ensures
        exists|i: int| 0 <= i < n && col_in_seg(#[trigger] segs[i], col),
    decreases n,
{
    if col < width_sum(segs, n - 1) {
        lemma_col_covered(segs, n - 1, col);
    } else {
        assert(segs[n - 1].display_col_offset == width_sum(segs, n - 1));
        assert(col_in_seg(segs[n - 1], col));
    }
}

/// In a well-formed sequence, `col_index` finds a segment exactly for the
/// columns below the total display width.
pub proof fn lemma_col_index_range(segs: Seq<GraphemeClusterSegment>, col: int)
    requires
        seg_positions_wf(segs),
        col >= 0,
    ensures
        col_index(segs, col) < segs.len() <==> col < width_sum(segs, segs.len() as int),
{
    lemma_col_index_props(segs, col);
    let n = segs.len() as int;
    let k = col_index(segs, col);
    if col < width_sum(segs, n) {
        lemma_col_covered(segs, n, col);
        let i = choose|i: int| 0 <= i < n && col_in_seg(#[trigger] segs[i], col);
        if k == n {
            assert(!col_in_seg(segs[i], col));
        }
    }
    if k < n {
        assert(col < segs[k].display_col_offset + segs[k].unicode_width);
        assert(segs[k].display_col_offset + segs[k].unicode_width == width_sum(segs, k + 1));
        lemma_width_sum_monotone(segs, k + 1, n);
    }
}

/// What `fit_count` returns: the longest prefix whose summed width stays
/// within the budget.
pub proof fn lemma_fit_count_props(segs: Seq<GraphemeClusterSegment>, avail: int)
    requires
        avail >= 0,
    ensures
        0 <= fit_count(segs, avail) <= segs.len(),
        width_sum(segs, fit_count(segs, avail)) <= avail,
        fit_count(segs, avail) < segs.len() ==> width_sum(segs, fit_count(segs, avail) + 1)
            > avail,
    decreases segs.len(),
{
    if segs.len() == 0 {
    } else if avail < segs[0].unicode_width {
        assert(width_sum(segs, 1) == width_sum(segs, 0) + segs[0].unicode_width);
    } else {
        let tail = segs.drop_first();
        lemma_fit_count_props(tail, avail - segs[0].unicode_width);
        let k = fit_count(segs, avail);
        assert(k == 1 + fit_count(tail, avail - segs[0].unicode_width));
        lemma_width_sum_shift(segs, k - 1);
        if k < segs.len() {
            lemma_width_sum_shift(segs, k);
        }
    }
}

/// Dropping the first segment shifts prefix width sums by its width.
pub proof fn lemma_width_sum_shift(segs: Seq<GraphemeClusterSegment>, i: int)
    requires
        segs.len() > 0,
        0 <= i <= segs.len() - 1,
    ensures
        width_sum(segs, i + 1) == segs[0].unicode_width + width_sum(segs.drop_first(), i),
    decreases i,
{
    assert(width_sum(segs, i + 1) == width_sum(segs, i) + segs[i].unicode_width);
    if i > 0 {
        lemma_width_sum_shift(segs, i - 1);
        assert(segs.drop_first()[i - 1] == segs[i]);
        assert(width_sum(segs.drop_first(), i) == width_sum(segs.drop_first(), i - 1)
            + segs.drop_first()[i - 1].unicode_width);
    }
}

} // verus!
