//! The Unicode string model: an immutable value pairing a string with its
//! grapheme-cluster segment table and aggregate statistics, plus the
//! position-translation queries and functional edit operations on it.

use unicode_width::{UnicodeWidthChar, UnicodeWidthStr};
use vstd::prelude::*;

verus! {

use crate::measure::char_width;
use crate::measure::grapheme_clusters;
use crate::measure::split_graphemes;
use crate::measure::str_width;
use crate::measure::views_of_strings;
use crate::segment::GraphemeClusterSegment;
use crate::segment::col_in_seg;
use crate::segment::col_index;
use crate::segment::fit_count;
use crate::segment::lemma_col_index_of_match;
use crate::segment::lemma_col_index_props;
use crate::segment::lemma_col_index_range;
use crate::segment::lemma_fit_count_props;
use crate::segment::lemma_sum_prefix_agree;
use crate::segment::lemma_width_sum_monotone;
use crate::segment::seg_measures_wf;
use crate::segment::seg_positions_wf;
use crate::segment::size_sum;
use crate::segment::texts_of;
use crate::segment::width_sum;
use crate::text::concat_texts;
use crate::text::lemma_concat_texts_push;
use crate::text::lemma_concat_texts_split;
use crate::text::lemma_utf8_total_is_concat_len;
use crate::text::lemma_utf8_total_skip;
use crate::text::utf8_len;
use crate::text::utf8_total;
use vstd::string::StringExecFns;

/// A rectangle of terminal cells, measured in columns and rows.
#[derive(Clone, Copy, Debug, PartialEq, Eq, Structural)]
pub struct Size {
    /// Width in display columns.
    pub col: usize,
    /// Height in rows.
    pub row: usize,
}

/// A string together with its complete, ordered grapheme-cluster segment
/// table and derived aggregates. Immutable after construction: every edit
/// operation returns a new string, never an in-place change.
#[derive(Debug)]
pub struct UnicodeString {
    /// The original string.
    pub string: String,
    /// One segment per grapheme cluster, in logical order.
    pub vec_segment: Vec<GraphemeClusterSegment>,
    /// Total byte size of `string`.
    pub byte_size: usize,
    /// Number of grapheme clusters in `string`.
    pub grapheme_cluster_segment_count: usize,
    /// Total display width of `string`, in terminal columns.
    pub display_width: usize,
}

impl UnicodeString {
    /// The positional bookkeeping of the segment table is internally
    /// consistent, and the aggregates agree with it. This is all the queries
    /// and edits rely on.
    pub open spec fn consistent(self) -> bool {
        &&& seg_positions_wf(self.vec_segment@)
        &&& concat_texts(texts_of(self.vec_segment@)) == self.string@
        &&& self.grapheme_cluster_segment_count == self.vec_segment@.len()
        &&& self.byte_size == size_sum(self.vec_segment@, self.vec_segment@.len() as int)
        &&& self.display_width == width_sum(self.vec_segment@, self.vec_segment@.len() as int)
    }

    /// The segment table is well formed: internally consistent, its texts are
    /// exactly the grapheme clusters of the string, and every measured field
    /// agrees with its cluster text.
    pub open spec fn wf(self) -> bool {
        &&& self.consistent()
        &&& seg_measures_wf(self.vec_segment@)
        &&& texts_of(self.vec_segment@) == grapheme_clusters(self.string@)
        &&& self.byte_size == utf8_len(self.string@)
    }

    /// The segment at ordinal `logical_index`, if there is one.
    pub fn at_logical_index(&self, logical_index: usize) -> (r: Option<&GraphemeClusterSegment>)
        ensures
            match r {
                Some(seg) => logical_index < self.vec_segment@.len() && *seg
                    == self.vec_segment@[logical_index as int],
                None => logical_index >= self.vec_segment@.len(),
            },
    {
        if logical_index < self.vec_segment.len() {
            Some(&self.vec_segment[logical_index])
        } else {
            None
        }
    }

    /// The segment whose half-open column range contains `display_col`, if
    /// there is one: exactly the columns below the total display width are
    /// covered, and a 2-column cluster answers for either of its columns.
    pub fn at_display_col(&self, display_col: usize) -> (r: Option<&GraphemeClusterSegment>)
        requires
            self.consistent(),
        ensures
            r is Some <==> display_col < self.display_width,
            r matches Some(seg) ==> 0 <= col_index(self.vec_segment@, display_col as int)
                < self.vec_segment@.len(),
            r matches Some(seg) ==> *seg == self.vec_segment@[col_index(
                self.vec_segment@,
                display_col as int,
            )] && col_in_seg(*seg, display_col as int),
    {
        let n = self.vec_segment.len();
        let mut j: usize = 0;
        while j < n
            invariant
                self.consistent(),
                n == self.vec_segment@.len(),
                j <= n,
                forall|i: int|
                    0 <= i < j as int ==> !col_in_seg(
                        #[trigger] self.vec_segment@[i],
                        display_col as int,
                    ),
            decreases n - j,
        {
            let seg = &self.vec_segment[j];
            if seg.display_col_offset <= display_col && display_col - seg.display_col_offset
                < seg.unicode_width {
                proof {
                    lemma_col_index_of_match(self.vec_segment@, display_col as int, j as int);
                    lemma_col_index_range(self.vec_segment@, display_col as int);
                }
                return Some(seg);
            }
            j = j + 1;
        }
        proof {
            lemma_col_index_props(self.vec_segment@, display_col as int);
            lemma_col_index_range(self.vec_segment@, display_col as int);
            let k = col_index(self.vec_segment@, display_col as int);
            if k < self.vec_segment@.len() {
                assert(col_in_seg(self.vec_segment@[k], display_col as int));
                assert(false);
            }
        }
        None
    }

    /// The logical index of the cluster shown at `display_col`.
    pub fn logical_index_at_display_col(&self, display_col: usize) -> (r: Option<usize>)
        requires
            self.consistent(),
        ensures
            r is Some <==> display_col < self.display_width,
            r matches Some(k) ==> k as int == col_index(self.vec_segment@, display_col as int)
                && (k as int) < self.vec_segment@.len(),
    {
        match self.at_display_col(display_col) {
            Some(seg) => Some(seg.logical_index),
            None => None,
        }
    }

    /// The display column at which the cluster with ordinal `logical_index`
    /// begins.
    pub fn display_col_at_logical_index(&self, logical_index: usize) -> (r: Option<usize>)
        ensures
            r is Some <==> logical_index < self.vec_segment@.len(),
            r matches Some(c) ==> c == self.vec_segment@[logical_index as int].display_col_offset,
    {
        match self.at_logical_index(logical_index) {
            Some(seg) => Some(seg.display_col_offset),
            None => None,
        }
    }

    /// The cluster text shown at `display_col`, with its display width.
    pub fn get_string_at_display_col(&self, display_col: usize) -> (r: Option<(String, usize)>)
        requires
            self.consistent(),
        ensures
            r is Some <==> display_col < self.display_width,
            r matches Some(p) ==> {
                let k = col_index(self.vec_segment@, display_col as int);
                &&& k < self.vec_segment@.len()
                &&& p.0@ == self.vec_segment@[k].string@
                &&& p.1 == self.vec_segment@[k].unicode_width
            },
    {
        match self.at_display_col(display_col) {
            Some(seg) => Some((seg.string.clone(), seg.unicode_width)),
            None => None,
        }
    }

    /// The cluster text immediately left of the cluster shown at
    /// `display_col`, with its display width.
    pub fn get_string_at_left_of_display_col(&self, display_col: usize) -> (r: Option<
        (String, usize),
    >)
        requires
            self.consistent(),
        ensures
            r is Some <==> (display_col < self.display_width && col_index(
                self.vec_segment@,
                display_col as int,
            ) >= 1),
            r matches Some(p) ==> {
                let k = col_index(self.vec_segment@, display_col as int);
                &&& 1 <= k < self.vec_segment@.len()
                &&& p.0@ == self.vec_segment@[k - 1].string@
                &&& p.1 == self.vec_segment@[k - 1].unicode_width
            },
    {
        match self.at_display_col(display_col) {
            Some(seg_at_col) => {
                if seg_at_col.logical_index >= 1 {
                    match self.at_logical_index(seg_at_col.logical_index - 1) {
                        Some(seg_left) => Some((seg_left.string.clone(), seg_left.unicode_width)),
                        None => None,
                    }
                } else {
                    None
                }
            },
            None => None,
        }
    }

    /// The last cluster's text and display width, if the string is non-empty.
    pub fn get_string_at_end(&self) -> (r: Option<(String, usize)>)
        ensures
            r is Some <==> self.vec_segment@.len() > 0,
            r matches Some(p) ==> {
                let n = self.vec_segment@.len() as int;
                &&& p.0@ == self.vec_segment@[n - 1].string@
                &&& p.1 == self.vec_segment@[n - 1].unicode_width
            },
    {
        let n = self.vec_segment.len();
        if n > 0 {
            let seg = &self.vec_segment[n - 1];
            Some((seg.string.clone(), seg.unicode_width))
        } else {
            None
        }
    }

    /// A new string holding this string followed by `other`; neither input is
    /// changed.
    pub fn merge_with(&self, other: UnicodeString) -> (r: Option<String>)
        ensures
            r is Some,
            r matches Some(t) ==> t@ == self.string@ + other.string@,
    {
        let mut new_string = self.string.clone();
        new_string.append(other.string.as_str());
        Some(new_string)
    }

    /// A new string with one grapheme cluster of `chunk` inserted at
    /// `display_col`, together with the inserted cluster's measured width.
    /// When `display_col` falls inside an existing cluster's column range,
    /// the first cluster of `chunk` lands immediately before that cluster in
    /// logical order; when `display_col` is at or past the total display
    /// width, the whole `chunk` is appended at the end.
    pub fn insert_char_at_display_col(&self, display_col: usize, chunk: &str) -> (r: (
        String,
        usize,
    ))
        requires
            self.consistent(),
            chunk@.len() > 0,
        ensures
            display_col < self.display_width ==> ({
                let segs = self.vec_segment@;
                let k = col_index(segs, display_col as int);
                let t = texts_of(segs);
                &&& r.0@ == concat_texts(t.subrange(0, k)) + grapheme_clusters(chunk@)[0]
                    + concat_texts(t.subrange(k, segs.len() as int))
                &&& r.1 == str_width(grapheme_clusters(chunk@)[0])
            }),
            display_col >= self.display_width ==> r.0@ == self.string@ + chunk@ && r.1 == str_width(
                chunk@,
            ),
    {
        match self.logical_index_at_display_col(display_col) {
            Some(split_index) => {
                let clusters = split_graphemes(chunk);
                proof {
                    if clusters@.len() == 0 {
                        assert(views_of_strings(clusters@) =~= Seq::<Seq<char>>::empty());
                        assert(chunk@.len() == 0);
                    }
                    assert(clusters@[0]@ == grapheme_clusters(chunk@)[0]);
                }
                let cluster = clusters[0].clone();
                let cluster_width = UnicodeString::str_display_width(cluster.as_str());
                let mut out = collect_text(&self.vec_segment, 0, split_index);
                out.append(cluster.as_str());
                let right = collect_text(&self.vec_segment, split_index, self.vec_segment.len());
                out.append(right.as_str());
                (out, cluster_width)
            },
            None => {
                let mut out = self.string.clone();
                out.append(chunk);
                let chunk_width = UnicodeString::str_display_width(chunk);
                (out, chunk_width)
            },
        }
    }

    /// Split into a left and a right (string, width) pair at `display_col`;
    /// their concatenation reproduces the original string. The split never
    /// bisects a cluster: when `display_col` lands inside a multi-column
    /// cluster, that whole cluster moves to the right side. Out-of-range
    /// columns yield no split.
    pub fn split_at_display_col(&self, display_col: usize) -> (r: Option<
        ((String, usize), (String, usize)),
    >)
        requires
            self.consistent(),
        ensures
            r is Some <==> display_col < self.display_width,
            r matches Some(p) ==> ({
                let segs = self.vec_segment@;
                let k = col_index(segs, display_col as int);
                let t = texts_of(segs);
                &&& p.0.0@ == concat_texts(t.subrange(0, k))
                &&& p.0.1 == width_sum(segs, k)
                &&& p.1.0@ == concat_texts(t.subrange(k, segs.len() as int))
                &&& p.1.1 == self.display_width - width_sum(segs, k)
                &&& p.0.0@ + p.1.0@ == self.string@
            }),
    {
        match self.logical_index_at_display_col(display_col) {
            Some(split_index) => {
                let n = self.vec_segment.len();
                let left = collect_text(&self.vec_segment, 0, split_index);
                let right = collect_text(&self.vec_segment, split_index, n);
                let left_width = self.vec_segment[split_index].display_col_offset;
                proof {
                    let segs = self.vec_segment@;
                    let k = split_index as int;
                    lemma_col_index_props(segs, display_col as int);
                    lemma_width_sum_monotone(segs, k + 1, segs.len() as int);
                    lemma_concat_texts_split(texts_of(segs), k);
                    assert(texts_of(segs).subrange(0, segs.len() as int) =~= texts_of(segs));
                }
                let right_width = self.display_width - left_width;
                if left_width > 0 || right_width > 0 {
                    Some(((left, left_width), (right, right_width)))
                } else {
                    proof {
                        let segs = self.vec_segment@;
                        let k = split_index as int;
                        assert(col_in_seg(segs[k], display_col as int));
                        assert(width_sum(segs, k + 1) == width_sum(segs, k)
                            + segs[k].unicode_width);
                        assert(false);
                    }
                    None
                }
            },
            None => None,
        }
    }

    /// A new (string, width) pair with exactly the one whole cluster shown at
    /// `display_col` removed. Deleting the sole remaining cluster yields an
    /// explicit empty string with zero width; an out-of-range column yields
    /// no result.
    pub fn delete_char_at_display_col(&self, display_col: usize) -> (r: Option<(String, usize)>)
        requires
            self.consistent(),
        ensures
            r is Some <==> display_col < self.display_width,
            r matches Some(p) ==> ({
                let segs = self.vec_segment@;
                let k = col_index(segs, display_col as int);
                let t = texts_of(segs);
                &&& p.0@ == concat_texts(t.subrange(0, k)) + concat_texts(
                    t.subrange(k + 1, segs.len() as int),
                )
                &&& p.1 == self.display_width - segs[k].unicode_width
            }),
    {
        match self.logical_index_at_display_col(display_col) {
            Some(split_index) => {
                let n = self.vec_segment.len();
                let mut out = collect_text(&self.vec_segment, 0, split_index);
                let right = collect_text(&self.vec_segment, split_index + 1, n);
                out.append(right.as_str());
                proof {
                    let segs = self.vec_segment@;
                    let k = split_index as int;
                    assert(width_sum(segs, k + 1) == width_sum(segs, k) + segs[k].unicode_width);
                    lemma_width_sum_monotone(segs, k + 1, segs.len() as int);
                }
                let new_width = self.display_width - self.vec_segment[split_index].unicode_width;
                Some((out, new_width))
            },
            None => None,
        }
    }

    /// The longest whole-cluster prefix that fits in `display_cols` columns.
    /// Clusters are atomic: the first cluster that does not fit stops the
    /// scan, even if some budget remains.
    pub fn truncate_to_fit_display_cols(&self, display_cols: usize) -> (r: String)
        requires
            self.consistent(),
        ensures
            r@ == concat_texts(
                texts_of(self.vec_segment@).subrange(
                    0,
                    fit_count(self.vec_segment@, display_cols as int),
                ),
            ),
            width_sum(self.vec_segment@, fit_count(self.vec_segment@, display_cols as int))
                <= display_cols,
            fit_count(self.vec_segment@, display_cols as int) < self.vec_segment@.len()
                ==> width_sum(
                self.vec_segment@,
                fit_count(self.vec_segment@, display_cols as int) + 1,
            ) > display_cols,
    {
        let n = self.vec_segment.len();
        let mut avail: usize = display_cols;
        let mut i: usize = 0;
        proof {
            assert(self.vec_segment@.skip(0) =~= self.vec_segment@);
        }
        while i < n && self.vec_segment[i].unicode_width <= avail
            invariant
                self.consistent(),
                n == self.vec_segment@.len(),
                i <= n,
                avail as int == display_cols - width_sum(self.vec_segment@, i as int),
                fit_count(self.vec_segment@, display_cols as int) == i + fit_count(
                    self.vec_segment@.skip(i as int),
                    avail as int,
                ),
            decreases n - i,
        {
            proof {
                let segs = self.vec_segment@;
                assert(segs.skip(i as int)[0] == segs[i as int]);
                assert(segs.skip(i as int).drop_first() =~= segs.skip(i as int + 1));
            }
            avail = avail - self.vec_segment[i].unicode_width;
            i = i + 1;
        }
        proof {
            let segs = self.vec_segment@;
            if i < n {
                assert(segs.skip(i as int)[0] == segs[i as int]);
                assert(fit_count(segs.skip(i as int), avail as int) == 0);
            } else {
                assert(segs.skip(i as int) =~= Seq::<GraphemeClusterSegment>::empty());
            }
            assert(fit_count(segs, display_cols as int) == i as int);
            lemma_fit_count_props(segs, display_cols as int);
        }
        collect_text(&self.vec_segment, 0, i)
    }

    /// The longest whole-cluster prefix that fits in the columns of `size`.
    pub fn truncate_to_fit_size(&self, size: Size) -> (r: String)
        requires
            self.consistent(),
        ensures
            r@ == concat_texts(
                texts_of(self.vec_segment@).subrange(
                    0,
                    fit_count(self.vec_segment@, size.col as int),
                ),
            ),
            width_sum(self.vec_segment@, fit_count(self.vec_segment@, size.col as int))
                <= size.col,
    {
        self.truncate_to_fit_display_cols(size.col)
    }

    /// Relies on `unicode_width::UnicodeWidthChar::width`: the column width of
    /// a single codepoint, 0 for control and other unrecognized codepoints.
    #[verifier::external_body]
    pub fn char_display_width(character: char) -> (r: usize)
        ensures
            r == char_width(character),
    {
        UnicodeWidthChar::width(character).unwrap_or(0)
    }

    /// Relies on `unicode_width::UnicodeWidthStr::width`: the column width of
    /// a string evaluated as a whole. The width never exceeds the string's
    /// UTF-8 byte length: every codepoint the width table maps to 2 or 3
    /// columns lies at or above U+1100 and so occupies at least 3 bytes, and
    /// the sequence rules (ligatures, emoji presentation) assign a combined
    /// width of at most 2 to runs that occupy at least 2 bytes.
    #[verifier::external_body]
    pub fn str_display_width(string: &str) -> (r: usize)
        ensures
            r == str_width(string@),
            r <= utf8_len(string@),
    {
        UnicodeWidthStr::width(string)
    }
}

/// A new string holding the cluster texts of `segs[from..to]`, in order.
fn collect_text(segs: &Vec<GraphemeClusterSegment>, from: usize, to: usize) -> (r: String)
    requires
        from <= to <= segs@.len(),
    ensures
        r@ == concat_texts(texts_of(segs@).subrange(from as int, to as int)),
{
    let mut out = String::new();
    let mut j: usize = from;
    proof {
        assert(texts_of(segs@).subrange(from as int, from as int) =~= Seq::<Seq<char>>::empty());
    }
    while j < to
        invariant
            from <= j <= to <= segs@.len(),
            out@ == concat_texts(texts_of(segs@).subrange(from as int, j as int)),
        decreases to - j,
    {
        let seg = &segs[j];
        out.append(seg.string.as_str());
        proof {
            let t = texts_of(segs@);
            assert(t.subrange(from as int, j as int + 1) =~= t.subrange(from as int, j as int).push(
                t[j as int],
            ));
            lemma_concat_texts_push(t.subrange(from as int, j as int), t[j as int]);
            assert(t[j as int] == segs@[j as int].string@);
        }
        j = j + 1;
    }
    out
}

/// Segmentation entry point: anything that stands for a text can be turned
/// into a [`UnicodeString`].
pub trait UnicodeStringExt {
    /// The text this value stands for.
    spec fn text(&self) -> Seq<char>;

    /// Segment into grapheme clusters with byte and display-column
    /// bookkeeping.
    fn unicode_string(&self) -> (r: UnicodeString)
        ensures
            r.wf(),
            r.string@ == self.text(),
    ;
}

impl UnicodeStringExt for String {
    open spec fn text(&self) -> Seq<char> {
        self@
    }

    fn unicode_string(&self) -> (r: UnicodeString) {
        let clusters: Vec<String> = split_graphemes(self.as_str());
        let total_bytes: usize = self.as_str().as_bytes().len();
        let ghost texts = views_of_strings(clusters@);
        proof {
            lemma_utf8_total_is_concat_len(texts);
            assert(total_bytes as nat == utf8_len(self@));
            assert(concat_texts(texts) == self@);
            assert(utf8_total(texts) == total_bytes as nat);
            assert(texts.skip(0) =~= texts);
            assert forall|j: int| 0 <= j < texts.len() implies (#[trigger] texts[j]).len() > 0 by {
                assert(texts[j] == clusters@[j]@);
            }
        }
        let mut segs: Vec<GraphemeClusterSegment> = Vec::new();
        let mut byte_acc: usize = 0;
        let mut col_acc: usize = 0;
        let mut i: usize = 0;
        while i < clusters.len()
            invariant
                i <= clusters.len(),
                texts == views_of_strings(clusters@),
                texts.len() == clusters@.len(),
                forall|j: int| 0 <= j < texts.len() ==> (#[trigger] texts[j]).len() > 0,
                segs@.len() == i as int,
                forall|j: int| 0 <= j < i as int ==> (#[trigger] segs@[j]).string@ == texts[j],
                forall|j: int|
                    0 <= j < i as int ==> {
                        &&& (#[trigger] segs@[j]).wf()
                        &&& segs@[j].logical_index == j
                        &&& segs@[j].byte_offset == size_sum(segs@, j)
                        &&& segs@[j].display_col_offset == width_sum(segs@, j)
                    },
                byte_acc as nat == size_sum(segs@, i as int),
                col_acc as nat == width_sum(segs@, i as int),
                col_acc <= byte_acc,
                byte_acc + utf8_total(texts.skip(i as int)) == total_bytes as nat,
            decreases clusters.len() - i,
        {
            let cluster: String = clusters[i].clone();
            let w: usize = UnicodeString::str_display_width(cluster.as_str());
            let bsize: usize = cluster.as_str().as_bytes().len();
            proof {
                lemma_utf8_total_skip(texts, i as int);
                assert(cluster@ == texts[i as int]);
                assert(bsize as nat == utf8_len(texts[i as int]));
            }
            let seg = GraphemeClusterSegment {
                string: cluster,
                byte_offset: byte_acc,
                unicode_width: w,
                logical_index: i,
                byte_size: bsize,
                display_col_offset: col_acc,
            };
            let ghost old_segs = segs@;
            segs.push(seg);
            proof {
                assert forall|j: int| 0 <= j <= i as int implies width_sum(segs@, j) == width_sum(
                    old_segs,
                    j,
                ) && size_sum(segs@, j) == size_sum(old_segs, j) by {
                    lemma_sum_prefix_agree(old_segs, segs@, j);
                }
            }
            byte_acc = byte_acc + bsize;
            col_acc = col_acc + w;
            i = i + 1;
        }
        let count = segs.len();
        proof {
            assert(texts.skip(clusters@.len() as int) =~= Seq::<Seq<char>>::empty());
            assert(texts_of(segs@) =~= texts);
        }
        UnicodeString {
            string: self.clone(),
            vec_segment: segs,
            byte_size: byte_acc,
            grapheme_cluster_segment_count: count,
            display_width: col_acc,
        }
    }
}

} // verus!
