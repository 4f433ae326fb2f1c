//! A vehicle's centerline: a polyline of fixed-point points, with the
//! measured walk along it that the sprite builder positions everything by.

use vstd::prelude::*;
use crate::geometry::{delta, dir_len, dir_seg, interp, interp_i64, pt_in, pt_work, quad_of_segment,
    quad_of_segment_i64, seg_len, seg_len_i64, spec_delta, Dir, Pt, Quad, SEG_LEN_LIMIT};
use crate::num::{lemma_sqrt_floor_unique};

verus! {

/// Largest number of points a path may have.
pub const MAX_POINTS: usize = 10_000;

/// No path of in-bounds points is longer than this, in milliunits.
pub const PATH_LEN_LIMIT: i64 = 32_000_000_000_000;

/// The heading reported for a degenerate (zero-length) path: along +x.
pub open spec fn default_heading() -> Dir {
    Dir { dx: 1000, dy: 0 }
}

/// A centerline path: an ordered polyline of input points.
#[derive(Clone, Debug)]
pub struct Path {
    pub pts: Vec<Pt>,
}

impl Path {
    /// A well-formed path has at least one point, not too many, and every
    /// point within the input coordinate limit.
    pub open spec fn wf(self) -> bool {
        1 <= self.pts@.len() <= MAX_POINTS && forall|i: int|
            0 <= i < self.pts@.len() ==> pt_in(#[trigger] self.pts@[i])
    }

    /// Total length of the path, as a spec value.
    pub open spec fn total_len(self) -> int {
        len_from(self.pts@, 0)
    }

    /// Total length of the path.
    pub fn length(&self) -> (l: i64)
        requires
            self.wf(),
        ensures
            l == self.total_len(),
            0 <= l <= PATH_LEN_LIMIT,
    {
        proof {
            lemma_len_from_bounds(self.pts@, 0);
        }
        length_from(&self.pts, 0)
    }

    /// The point `d` milliunits from the start, with the heading of the
    /// segment it lies on (the default heading on a degenerate path).
    pub fn dist_along(&self, d: i64) -> (r: (Pt, Dir))
        requires
            self.wf(),
            0 <= d <= self.total_len(),
        ensures
            r == point_along(self.pts@, 0, d as int),
            pt_in(r.0),
            dir_seg(r.1),
            dir_len(r.1) > 0,
    {
        point_along_exec(&self.pts, 0, d)
    }
}

/// Length of the sub-polyline from point `i` on.
pub open spec fn len_from(pts: Seq<Pt>, i: int) -> int
    decreases pts.len() - i,
{
    if i + 1 >= pts.len() {
        0
    } else {
        seg_len(pts[i], pts[i + 1]) + len_from(pts, i + 1)
    }
}

/// Each tail length is non-negative and bounded by the segments remaining.
pub proof fn lemma_len_from_bounds(pts: Seq<Pt>, i: int)
    requires
        forall|k: int| 0 <= k < pts.len() ==> pt_in(#[trigger] pts[k]),
        0 <= i <= pts.len(),
    ensures
        0 <= len_from(pts, i) <= SEG_LEN_LIMIT * (pts.len() - i),
    decreases pts.len() - i,
{
    if i + 1 >= pts.len() {
        assert(SEG_LEN_LIMIT * (pts.len() - i) >= 0) by (nonlinear_arith)
            requires
                pts.len() - i >= 0,
        ;
    } else {
        lemma_len_from_bounds(pts, i + 1);
        lemma_seg_len_in_bounds(pts[i], pts[i + 1]);
        assert(SEG_LEN_LIMIT * (pts.len() - i) == SEG_LEN_LIMIT + SEG_LEN_LIMIT * (pts.len() - (i
            + 1))) by (nonlinear_arith);
    }
}

/// A segment of input points is no longer than the segment-length limit.
pub proof fn lemma_seg_len_in_bounds(a: Pt, b: Pt)
    requires
        pt_in(a),
        pt_in(b),
    ensures
        0 <= seg_len(a, b) <= SEG_LEN_LIMIT,
{
    let d = spec_delta(a, b);
    let n = (d.dx * d.dx + d.dy * d.dy) as nat;
    assert(0 <= d.dx * d.dx + d.dy * d.dy <= 9_680_000_000_000_000_000) by (nonlinear_arith)
        requires
            -2_200_000_000 <= d.dx <= 2_200_000_000,
            -2_200_000_000 <= d.dy <= 2_200_000_000,
    ;
    assert(n <= 9_680_000_000_000_000_000);
    crate::num::lemma_sqrt_floor_bounds(n);
    let l = crate::num::sqrt_floor(n) as int;
    assert(l <= SEG_LEN_LIMIT) by (nonlinear_arith)
        requires
            l * l <= n <= 9_680_000_000_000_000_000,
            l >= 0,
    ;
}

/// `len_from`, on machine integers.
fn length_from(pts: &Vec<Pt>, i: usize) -> (l: i64)
    requires
        i < pts@.len() <= MAX_POINTS,
        forall|k: int| 0 <= k < pts@.len() ==> pt_in(#[trigger] pts@[k]),
    ensures
        l == len_from(pts@, i as int),
    decreases pts@.len() - i,
{
    proof {
        lemma_len_from_bounds(pts@, i as int);
        if i + 1 < pts@.len() {
            lemma_len_from_bounds(pts@, i + 1 as int);
            lemma_seg_len_in_bounds(pts@[i as int], pts@[i + 1 as int]);
            assert(SEG_LEN_LIMIT * (pts@.len() - (i + 1)) <= SEG_LEN_LIMIT * MAX_POINTS)
                by (nonlinear_arith)
                requires
                    0 <= pts@.len() - (i + 1) <= MAX_POINTS,
            ;
        }
    }
    if i + 1 >= pts.len() {
        0
    } else {
        let s = seg_len_i64(pts[i], pts[i + 1]);
        let rest = length_from(pts, i + 1);
        s + rest
    }
}

/// The point `d` milliunits along the sub-polyline from point `i` on, and
/// the heading of the segment it lies on. Zero-length segments are walked
/// over; past the last point the last point itself is reported, with the
/// default heading.
pub open spec fn point_along(pts: Seq<Pt>, i: int, d: int) -> (Pt, Dir)
    decreases pts.len() - i,
{
    if i + 1 >= pts.len() {
        (pts[i], default_heading())
    } else {
        let l = seg_len(pts[i], pts[i + 1]);
        if l > 0 && d <= l {
            (interp(pts[i], pts[i + 1], d, l), spec_delta(pts[i], pts[i + 1]))
        } else if l == 0 {
            point_along(pts, i + 1, d)
        } else {
            point_along(pts, i + 1, d - l)
        }
    }
}

/// `point_along`, on machine integers.
fn point_along_exec(pts: &Vec<Pt>, i: usize, d: i64) -> (r: (Pt, Dir))
    requires
        i < pts@.len() <= MAX_POINTS,
        forall|k: int| 0 <= k < pts@.len() ==> pt_in(#[trigger] pts@[k]),
        0 <= d <= len_from(pts@, i as int),
    ensures
        r == point_along(pts@, i as int, d as int),
        pt_in(r.0),
        dir_seg(r.1),
        dir_len(r.1) > 0,
    decreases pts@.len() - i,
{
    if i + 1 >= pts.len() {
        proof {
            assert(1000 * 1000 <= 1_000_000 < (1000 + 1) * (1000 + 1)) by (nonlinear_arith);
            lemma_sqrt_floor_unique(1_000_000nat, 1000nat);
        }
        (pts[i], Dir { dx: 1000, dy: 0 })
    } else {
        let l = seg_len_i64(pts[i], pts[i + 1]);
        if l > 0 && d <= l {
            let p = interp_i64(pts[i], pts[i + 1], d, l);
            (p, delta(pts[i], pts[i + 1]))
        } else if l == 0 {
            point_along_exec(pts, i + 1, d)
        } else {
            point_along_exec(pts, i + 1, d - l)
        }
    }
}

/// The prefix of the sub-polyline from point `i` that is at most `d`
/// milliunits long: points are kept until the walk reaches `d`, and the
/// final point is interpolated exactly at `d`. Zero-length segments are
/// dropped.
pub open spec fn slice_upto(pts: Seq<Pt>, i: int, d: int) -> Seq<Pt>
    decreases pts.len() - i,
{
    if i + 1 >= pts.len() {
        seq![pts[i]]
    } else {
        let l = seg_len(pts[i], pts[i + 1]);
        if l > 0 && d <= l {
            seq![pts[i], interp(pts[i], pts[i + 1], d, l)]
        } else if l == 0 {
            slice_upto(pts, i + 1, d)
        } else {
            seq![pts[i]] + slice_upto(pts, i + 1, d - l)
        }
    }
}

/// `slice_upto`, on machine integers, appending to `out`.
pub fn slice_upto_push(pts: &Vec<Pt>, i: usize, d: i64, out: &mut Vec<Pt>)
    requires
        i < pts@.len() <= MAX_POINTS,
        forall|k: int| 0 <= k < pts@.len() ==> pt_in(#[trigger] pts@[k]),
        0 <= d <= len_from(pts@, i as int),
    ensures
        final(out)@ == old(out)@ + slice_upto(pts@, i as int, d as int),
    decreases pts@.len() - i,
{
    if i + 1 >= pts.len() {
        out.push(pts[i]);
    } else {
        let l = seg_len_i64(pts[i], pts[i + 1]);
        if l > 0 && d <= l {
            out.push(pts[i]);
            out.push(interp_i64(pts[i], pts[i + 1], d, l));
        } else if l == 0 {
            slice_upto_push(pts, i + 1, d, out);
        } else {
            out.push(pts[i]);
            slice_upto_push(pts, i + 1, d - l, out);
        }
    }
}

/// Every point of a slice of in-bounds points is in bounds.
pub proof fn lemma_slice_upto_in(pts: Seq<Pt>, i: int, d: int)
    requires
        forall|k: int| 0 <= k < pts.len() ==> pt_in(#[trigger] pts[k]),
        0 <= i < pts.len(),
        0 <= d,
    ensures
        1 <= slice_upto(pts, i, d).len() <= pts.len() - i + 1,
        forall|k: int| 0 <= k < slice_upto(pts, i, d).len() ==> pt_in(
            #[trigger] slice_upto(pts, i, d)[k]),
    decreases pts.len() - i,
{
    if i + 1 >= pts.len() {
    } else {
        let l = seg_len(pts[i], pts[i + 1]);
        if l > 0 && d <= l {
            lemma_interp_in(pts[i], pts[i + 1], d, l);
        } else if l == 0 {
            lemma_slice_upto_in(pts, i + 1, d);
        } else {
            lemma_slice_upto_in(pts, i + 1, d - l);
        }
    }
}

/// An interpolated point between in-bounds points is in bounds.
pub proof fn lemma_interp_in(a: Pt, b: Pt, d: int, l: int)
    requires
        pt_in(a),
        pt_in(b),
        l == seg_len(a, b),
        l > 0,
        0 <= d <= l,
    ensures
        pt_in(interp(a, b, d, l)),
{
    crate::num::lemma_mul_div_bound(b.x - a.x, d, l);
    crate::num::lemma_mul_div_bound(b.y - a.y, d, l);
}

/// The parallelograms swept when each (non-degenerate) segment of the
/// sub-polyline from point `i` is thickened by `h` on each side.
pub open spec fn thick_quads_from(pts: Seq<Pt>, i: int, h: int) -> Seq<Quad>
    decreases pts.len() - i,
{
    if i + 1 >= pts.len() {
        Seq::empty()
    } else {
        let rest = thick_quads_from(pts, i + 1, h);
        if seg_len(pts[i], pts[i + 1]) > 0 {
            seq![quad_of_segment(pts[i], pts[i + 1], h)] + rest
        } else {
            rest
        }
    }
}

/// The thick sweep yields at most one ring per segment.
pub proof fn lemma_thick_quads_len(pts: Seq<Pt>, i: int, h: int)
    requires
        0 <= i,
    ensures
        thick_quads_from(pts, i, h).len() <= if pts.len() - i - 1 >= 0 {
            pts.len() - i - 1
        } else {
            0
        },
    decreases pts.len() - i,
{
    if i + 1 >= pts.len() {
    } else {
        lemma_thick_quads_len(pts, i + 1, h);
    }
}

/// `thick_quads_from`, on machine integers, appending to `out`.
pub fn thick_quads_push(pts: &Vec<Pt>, i: usize, h: i64, out: &mut Vec<Quad>)
    requires
        i < pts@.len(),
        pts@.len() <= 2 * MAX_POINTS,
        forall|k: int| 0 <= k < pts@.len() ==> pt_in(#[trigger] pts@[k]),
        0 <= h <= crate::geometry::WIDTH_LIMIT,
    ensures
        final(out)@ == old(out)@ + thick_quads_from(pts@, i as int, h as int),
    decreases pts@.len() - i,
{
    if i + 1 >= pts.len() {
        assert(thick_quads_from(pts@, i as int, h as int) =~= Seq::<Quad>::empty());
        assert(old(out)@ + Seq::<Quad>::empty() =~= old(out)@);
    } else {
        let l = seg_len_i64(pts[i], pts[i + 1]);
        if l > 0 {
            out.push(quad_of_segment_i64(pts[i], pts[i + 1], h));
        }
        thick_quads_push(pts, i + 1, h, out);
        proof {
            if l > 0 {
                assert(old(out)@ + thick_quads_from(pts@, i as int, h as int) =~= (old(out)@
                    + seq![quad_of_segment(pts@[i as int], pts@[i as int + 1], h as int)])
                    + thick_quads_from(pts@, i as int + 1, h as int));
            }
        }
    }
}

} // verus!
