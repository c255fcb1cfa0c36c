//! The path decomposer: splitting a flat segment sequence into
//! independent sub-paths, and the bounding box of raw segments.
//!
//! A sub-path boundary begins at a `MoveTo` that is not the first
//! segment of the current scan, or immediately after a `ClosePath`,
//! which always terminates its sub-path inclusively. Splitting never
//! closes a path, so open sub-paths stay open whatever the stroke cap
//! style is.

use vstd::prelude::*;
use crate::geom::{BBox, spec_union, in_range};
use crate::scene::Segment;

verus! {

/// Where the sub-path that started at `start` ends, scanning from `i`:
/// the index one past its last segment.
pub open spec fn scan_end(s: Seq<Segment>, start: int, i: int) -> int
    decreases s.len() - i,
{
    if i < start || i >= s.len() {
        i
    } else if (s[i] is MoveTo) && i != start {
        i
    } else if s[i] is ClosePath {
        i + 1
    } else {
        scan_end(s, start, i + 1)
    }
}

/// Where the sub-path that starts at `start` ends.
pub open spec fn subpath_end(s: Seq<Segment>, start: int) -> int {
    scan_end(s, start, start)
}

/// The scan stays inside the sequence, always moves past `start`, and
/// stops only at a sub-path boundary: the end of the sequence, a
/// `MoveTo`, or just after a `ClosePath`.
pub proof fn lemma_scan_end_char(s: Seq<Segment>, start: int, i: int)
    requires
        0 <= start <= i <= s.len(),
    ensures
        i <= scan_end(s, start, i) <= s.len(),
        i < s.len() ==> scan_end(s, start, i) > i || i != start,
        scan_end(s, start, i) < s.len() ==> {
            ||| s[scan_end(s, start, i)] is MoveTo
            ||| (scan_end(s, start, i) > start && s[scan_end(s, start, i) - 1] is ClosePath)
        },
        forall|j: int|
            i <= j < scan_end(s, start, i) - 1 ==> !((#[trigger] s[j]) is ClosePath),
        forall|j: int|
            i <= j < scan_end(s, start, i) && j != start ==> !((#[trigger] s[j]) is MoveTo),
    decreases s.len() - i,
{
    if i >= s.len() {
    } else if (s[i] is MoveTo) && i != start {
    } else if s[i] is ClosePath {
    } else {
        lemma_scan_end_char(s, start, i + 1);
    }
}

/// A sub-path starting inside the sequence contains at least one
/// segment.
pub proof fn lemma_subpath_progress(s: Seq<Segment>, start: int)
    requires
        0 <= start < s.len(),
    ensures
        start < subpath_end(s, start) <= s.len(),
    decreases s.len() - start,
{
    lemma_scan_end_char(s, start, start);
    if !(s[start] is ClosePath) {
        lemma_scan_end_char(s, start, start + 1);
    }
}

/// The sub-paths of `s` from `start` on: each is the run from its
/// start up to its boundary, in order.
pub open spec fn spec_subpaths_from(s: Seq<Segment>, start: int) -> Seq<Seq<Segment>>
    decreases s.len() - start,
    when 0 <= start <= s.len()
    via spec_subpaths_from_dec
{
    if start >= s.len() {
        Seq::empty()
    } else {
        seq![s.subrange(start, subpath_end(s, start))]
            + spec_subpaths_from(s, subpath_end(s, start))
    }
}

#[via_fn]
proof fn spec_subpaths_from_dec(s: Seq<Segment>, start: int) {
    if 0 <= start < s.len() {
        lemma_subpath_progress(s, start);
    }
}

/// The ordered sub-paths of a segment sequence.
pub open spec fn spec_subpaths(s: Seq<Segment>) -> Seq<Seq<Segment>> {
    spec_subpaths_from(s, 0)
}

/// Concatenation of a sequence of segment runs, in order.
pub open spec fn concat_segments(parts: Seq<Seq<Segment>>) -> Seq<Segment>
    decreases parts.len(),
{
    if parts.len() == 0 {
        Seq::empty()
    } else {
        parts[0] + concat_segments(parts.drop_first())
    }
}


/// A segment stream whose sub-path boundaries are marked by moves: it
/// opens with a `MoveTo` and a `MoveTo` follows every `ClosePath` that
/// is not the last segment.
pub open spec fn boundary_wf(s: Seq<Segment>) -> bool {
    &&& s.len() > 0 ==> s[0] is MoveTo
    &&& forall|i: int|
        0 <= i < s.len() - 1 && (#[trigger] s[i]) is ClosePath ==> s[i + 1] is MoveTo
}

/// Concatenating the sub-paths from `start` on, in order, reproduces
/// the rest of the sequence exactly.
pub proof fn lemma_subpaths_from_concat(s: Seq<Segment>, start: int)
    requires
        0 <= start <= s.len(),
    ensures
        concat_segments(spec_subpaths_from(s, start)) == s.subrange(start, s.len() as int),
    decreases s.len() - start,
{
    if start >= s.len() {
        assert(concat_segments(spec_subpaths_from(s, start))
            =~= s.subrange(start, s.len() as int));
    } else {
        lemma_subpath_progress(s, start);
        let e = subpath_end(s, start);
        lemma_subpaths_from_concat(s, e);
        let parts = spec_subpaths_from(s, start);
        assert(parts.drop_first() =~= spec_subpaths_from(s, e));
        assert(concat_segments(parts)
            == s.subrange(start, e) + concat_segments(spec_subpaths_from(s, e)));
        assert(s.subrange(start, e) + s.subrange(e, s.len() as int)
            =~= s.subrange(start, s.len() as int));
    }
}

/// Splitting loses nothing and invents nothing: the returned
/// sub-paths, concatenated in order, are the original sequence.
pub proof fn lemma_subpaths_concat(s: Seq<Segment>)
    ensures
        concat_segments(spec_subpaths(s)) == s,
{
    lemma_subpaths_from_concat(s, 0);
    assert(s.subrange(0, s.len() as int) =~= s);
}

/// On a stream with marked boundaries, every sub-path is nonempty and
/// starts with a `MoveTo`.
pub proof fn lemma_subpaths_from_moves(s: Seq<Segment>, start: int)
    requires
        boundary_wf(s),
        0 <= start <= s.len(),
        start < s.len() ==> s[start] is MoveTo,
    ensures
        forall|k: int|
            0 <= k < spec_subpaths_from(s, start).len() ==> {
                let sub = #[trigger] spec_subpaths_from(s, start)[k];
                sub.len() > 0 && sub[0] is MoveTo
            },
    decreases s.len() - start,
{
    if start < s.len() {
        lemma_subpath_progress(s, start);
        let e = subpath_end(s, start);
        lemma_scan_end_char(s, start, start);
        if e < s.len() && !(s[e] is MoveTo) {
            assert(s[e - 1] is ClosePath);
        }
        lemma_subpaths_from_moves(s, e);
        let parts = spec_subpaths_from(s, start);
        assert forall|k: int| 0 <= k < parts.len() implies {
            let sub = #[trigger] parts[k];
            sub.len() > 0 && sub[0] is MoveTo
        } by {
            if k == 0 {
                assert(parts[0] == s.subrange(start, e));
                assert(s.subrange(start, e)[0] == s[start]);
            } else {
                assert(parts[k] == spec_subpaths_from(s, e)[k - 1]);
            }
        }
    }
}

/// On a stream with marked boundaries, every sub-path begins with
/// exactly one `MoveTo`.
pub proof fn lemma_subpaths_moves(s: Seq<Segment>)
    requires
        boundary_wf(s),
    ensures
        forall|k: int|
            0 <= k < spec_subpaths(s).len() ==> {
                let sub = #[trigger] spec_subpaths(s)[k];
                sub.len() > 0 && sub[0] is MoveTo
            },
{
    lemma_subpaths_from_moves(s, 0);
}

/// In any sub-path of any stream, a `ClosePath` can stand only as the
/// last segment, so no sub-path holds more than one; and no `MoveTo`
/// stands anywhere but first.
pub proof fn lemma_subpaths_from_interior(s: Seq<Segment>, start: int)
    requires
        0 <= start <= s.len(),
    ensures
        forall|k: int, j: int|
            0 <= k < spec_subpaths_from(s, start).len()
                && 0 <= j < spec_subpaths_from(s, start)[k].len() - 1
                ==> !((#[trigger] spec_subpaths_from(s, start)[k][j]) is ClosePath),
        forall|k: int, j: int|
            0 <= k < spec_subpaths_from(s, start).len()
                && 0 < j < spec_subpaths_from(s, start)[k].len()
                ==> !((#[trigger] spec_subpaths_from(s, start)[k][j]) is MoveTo),
    decreases s.len() - start,
{
    if start < s.len() {
        lemma_subpath_progress(s, start);
        let e = subpath_end(s, start);
        lemma_scan_end_char(s, start, start);
        lemma_subpaths_from_interior(s, e);
        let parts = spec_subpaths_from(s, start);
        assert forall|k: int, j: int|
            0 <= k < parts.len() && 0 <= j < parts[k].len() - 1 implies
            !((#[trigger] parts[k][j]) is ClosePath) by {
            if k == 0 {
                assert(parts[0] == s.subrange(start, e));
                assert(parts[0][j] == s[start + j]);
            } else {
                assert(parts[k] == spec_subpaths_from(s, e)[k - 1]);
            }
        }
        assert forall|k: int, j: int|
            0 <= k < parts.len() && 0 < j < parts[k].len() implies
            !((#[trigger] parts[k][j]) is MoveTo) by {
            if k == 0 {
                assert(parts[0] == s.subrange(start, e));
                assert(parts[0][j] == s[start + j]);
            } else {
                assert(parts[k] == spec_subpaths_from(s, e)[k - 1]);
            }
        }
    }
}

/// No sub-path holds more than one `ClosePath`, and only as its last
/// segment; no sub-path holds a second `MoveTo`.
pub proof fn lemma_subpaths_interior(s: Seq<Segment>)
    ensures
        forall|k: int, j: int|
            0 <= k < spec_subpaths(s).len()
                && 0 <= j < spec_subpaths(s)[k].len() - 1
                ==> !((#[trigger] spec_subpaths(s)[k][j]) is ClosePath),
        forall|k: int, j: int|
            0 <= k < spec_subpaths(s).len()
                && 0 < j < spec_subpaths(s)[k].len()
                ==> !((#[trigger] spec_subpaths(s)[k][j]) is MoveTo),
{
    lemma_subpaths_from_interior(s, 0);
}

/// Where the sub-path that starts at `start` ends. Scans segments
/// forward: a `MoveTo` after the start closes the scan before itself,
/// a `ClosePath` closes it after itself.
pub fn get_subpath(segments: &Vec<Segment>, start: usize) -> (end: usize)
    requires
        start <= segments@.len(),
    ensures
        end == subpath_end(segments@, start as int),
        start <= end <= segments@.len(),
{
    let n = segments.len();
    let mut i = start;
    proof {
        lemma_scan_end_char(segments@, start as int, start as int);
    }
    while i < n
        invariant
            start <= i <= n,
            n == segments@.len(),
            subpath_end(segments@, start as int) == scan_end(segments@, start as int, i as int),
            subpath_end(segments@, start as int) <= n,
        decreases n - i,
    {
        match segments[i] {
            Segment::MoveTo { .. } => {
                if i != start {
                    return i;
                }
            },
            Segment::ClosePath => {
                return i + 1;
            },
            _ => {},
        }
        i = i + 1;
    }
    i
}

/// Copy one sub-path's segments out of the stream.
pub fn create_subpath(segments: &Vec<Segment>, start: usize, end: usize) -> (r: Vec<Segment>)
    requires
        start <= end <= segments@.len(),
    ensures
        r@ == segments@.subrange(start as int, end as int),
{
    let mut out: Vec<Segment> = Vec::new();
    let mut i = start;
    while i < end
        invariant
            start <= i <= end <= segments@.len(),
            out@ == segments@.subrange(start as int, i as int),
        decreases end - i,
    {
        out.push(segments[i]);
        proof {
            assert(out@ =~= segments@.subrange(start as int, i as int + 1));
        }
        i = i + 1;
    }
    out
}

/// The views of a sequence of segment vectors.
pub open spec fn views_of(q: Seq<Vec<Segment>>) -> Seq<Seq<Segment>> {
    q.map_values(|v: Vec<Segment>| v@)
}

/// Split a flat segment sequence into its ordered sub-paths, each
/// renderable in isolation. The cap style is taken as a construction
/// hint; splitting never closes an open sub-path, so it holds square
/// caps as well as any other.
pub fn draw_path(segments: &Vec<Segment>, is_square_cap: bool) -> (r: Vec<Vec<Segment>>)
    ensures
        views_of(r@) == spec_subpaths(segments@),
{
    let _ = is_square_cap;
    let n = segments.len();
    let mut paths: Vec<Vec<Segment>> = Vec::new();
    let mut i: usize = 0;
    assert(views_of(paths@) + spec_subpaths_from(segments@, 0) =~= spec_subpaths(segments@));
    while i < n
        invariant
            i <= n,
            n == segments@.len(),
            views_of(paths@) + spec_subpaths_from(segments@, i as int)
                == spec_subpaths(segments@),
        decreases n - i,
    {
        proof {
            lemma_subpath_progress(segments@, i as int);
        }
        let end = get_subpath(segments, i);
        let sub = create_subpath(segments, i, end);
        let ghost prior = views_of(paths@);
        paths.push(sub);
        proof {
            assert(views_of(paths@) =~= prior.push(sub@));
            assert(prior.push(sub@) + spec_subpaths_from(segments@, end as int)
                =~= prior + spec_subpaths_from(segments@, i as int));
        }
        i = end;
    }
    proof {
        assert(views_of(paths@) + spec_subpaths_from(segments@, i as int) =~= views_of(paths@));
    }
    paths
}


/// The box one segment contributes: its points, control points
/// included (a conservative box for curves). A close contributes
/// nothing.
pub open spec fn seg_bbox(seg: Segment) -> BBox {
    match seg {
        Segment::MoveTo { x, y } => BBox::Rect { x0: x, y0: y, x1: x, y1: y },
        Segment::LineTo { x, y } => BBox::Rect { x0: x, y0: y, x1: x, y1: y },
        Segment::CurveTo { x1, y1, x2, y2, x, y } => BBox::Rect {
            x0: crate::geom::imin(crate::geom::imin(x1 as int, x2 as int), x as int) as i64,
            y0: crate::geom::imin(crate::geom::imin(y1 as int, y2 as int), y as int) as i64,
            x1: crate::geom::imax(crate::geom::imax(x1 as int, x2 as int), x as int) as i64,
            y1: crate::geom::imax(crate::geom::imax(y1 as int, y2 as int), y as int) as i64,
        },
        Segment::ClosePath => BBox::Empty,
    }
}

/// The union of the boxes of the segments from `i` on.
pub open spec fn spec_bbox_from(s: Seq<Segment>, i: int) -> BBox
    decreases s.len() - i,
    when 0 <= i <= s.len()
{
    if i >= s.len() {
        BBox::Empty
    } else {
        spec_union(seg_bbox(s[i]), spec_bbox_from(s, i + 1))
    }
}

/// The untransformed bounding box of raw segments: empty exactly when
/// no segment carries a coordinate.
pub open spec fn spec_path_bbox(s: Seq<Segment>) -> BBox {
    spec_bbox_from(s, 0)
}

/// The box one segment contributes.
fn seg_bbox_exec(seg: &Segment) -> (r: BBox)
    requires
        seg.wf(),
    ensures
        r == seg_bbox(*seg),
        r.wf(),
{
    match *seg {
        Segment::MoveTo { x, y } => BBox::Rect { x0: x, y0: y, x1: x, y1: y },
        Segment::LineTo { x, y } => BBox::Rect { x0: x, y0: y, x1: x, y1: y },
        Segment::CurveTo { x1, y1, x2, y2, x, y } => {
            let lo_x = if x1 <= x2 { x1 } else { x2 };
            let lo_x = if lo_x <= x { lo_x } else { x };
            let lo_y = if y1 <= y2 { y1 } else { y2 };
            let lo_y = if lo_y <= y { lo_y } else { y };
            let hi_x = if x1 >= x2 { x1 } else { x2 };
            let hi_x = if hi_x >= x { hi_x } else { x };
            let hi_y = if y1 >= y2 { y1 } else { y2 };
            let hi_y = if hi_y >= y { hi_y } else { y };
            BBox::Rect { x0: lo_x, y0: lo_y, x1: hi_x, y1: hi_y }
        },
        Segment::ClosePath => BBox::Empty,
    }
}

/// Compute the bounding box of a shape's raw segments, untransformed.
pub fn path_bbox(segments: &Vec<Segment>) -> (r: BBox)
    requires
        forall|i: int| 0 <= i < segments@.len() ==> (#[trigger] segments@[i]).wf(),
    ensures
        r == spec_path_bbox(segments@),
        r.wf(),
{
    let n = segments.len();
    let mut acc = BBox::Empty;
    let mut i: usize = 0;
    while i < n
        invariant
            i <= n,
            n == segments@.len(),
            forall|j: int| 0 <= j < segments@.len() ==> (#[trigger] segments@[j]).wf(),
            acc.wf(),
            spec_path_bbox(segments@)
                == spec_union(acc, spec_bbox_from(segments@, i as int)),
        decreases n - i,
    {
        let sb = seg_bbox_exec(&segments[i]);
        let next = acc.expand(&sb);
        proof {
            crate::geom::lemma_union_assoc(acc, seg_bbox(segments@[i as int]),
                spec_bbox_from(segments@, i as int + 1));
        }
        acc = next;
        i = i + 1;
    }
    acc
}

} // verus!
