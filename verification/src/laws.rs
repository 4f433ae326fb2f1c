//! The geometric guarantees of the body construction, stated and proved
//! once for every caller: the swept rings are strictly convex (and so
//! non-self-intersecting), a degenerate path yields a nose-only body
//! without failing, a straight body's swept ring has exactly the area of
//! the width-by-remaining-length rectangle, and a parked vehicle's color is
//! the faded moving color of the same identity.

use vstd::prelude::*;
use crate::color::{Color, ColorName};
use crate::geometry::{cross_dirs, dir_len, perp, pt_in, pt_seg, quad_area2,
    quad_of_segment, quad_strictly_convex, seg_len, spec_delta, Dir, Pt, Quad, WIDTH_LIMIT};
use crate::num::{lemma_mul_div_neg, lemma_mul_div_scaled, lemma_sqrt_floor_unique, mul_div};
use crate::path::{len_from, lemma_len_from_bounds, lemma_slice_upto_in, point_along, slice_upto,
    thick_quads_from, MAX_POINTS};
use crate::sprite::{body_quads, nose_quad, spec_body_color, spec_front, CarId, CarStatus,
    VehicleKind, NOSE_LENGTH};

verus! {

/// Every ring swept from a non-degenerate segment is strictly convex: its
/// four consecutive edge cross products all equal `-2` times the (positive)
/// cross product of the segment with its perpendicular offset. A strictly
/// convex closed ring cannot self-intersect.
pub proof fn lemma_swept_ring_convex(p: Pt, q: Pt, h: int)
    requires
        pt_seg(p),
        pt_seg(q),
        seg_len(p, q) > 0,
        2 <= h <= WIDTH_LIMIT,
    ensures
        quad_strictly_convex(quad_of_segment(p, q, h)),
{
    let s = spec_delta(p, q);
    let l = dir_len(s);
    let n = perp(s, h);
    crate::geometry::lemma_dir_component_le_len(s);
    lemma_mul_div_scaled(s.dx as int, h, l);
    lemma_mul_div_scaled(-(s.dy as int), h, l);
    lemma_mul_div_neg(s.dy as int, h, l);
    let quad = quad_of_segment(p, q, h);
    let e1 = spec_delta(quad.a, quad.b);
    let e2 = spec_delta(quad.b, quad.c);
    let e3 = spec_delta(quad.c, quad.d);
    let e4 = spec_delta(quad.d, quad.a);
    assert(e1.dx == s.dx && e1.dy == s.dy);
    assert(e2.dx == -2 * n.dx && e2.dy == -2 * n.dy);
    assert(e3.dx == -s.dx && e3.dy == -s.dy);
    assert(e4.dx == 2 * n.dx && e4.dy == 2 * n.dy);
    let c = cross_dirs(s, n);
    assert(cross_dirs(e1, e2) == -2 * c && cross_dirs(e2, e3) == -2 * c && cross_dirs(e3, e4) == -2
        * c && cross_dirs(e4, e1) == -2 * c) by (nonlinear_arith)
        requires
            e1.dx == s.dx && e1.dy == s.dy,
            e2.dx == -2 * n.dx && e2.dy == -2 * n.dy,
            e3.dx == -s.dx && e3.dy == -s.dy,
            e4.dx == 2 * n.dx && e4.dy == 2 * n.dy,
            c == cross_dirs(s, n),
    ;
    lemma_segment_offset_cross_positive(s, h);
}

/// The cross product of a non-degenerate segment with its perpendicular
/// offset of magnitude at least 2 is strictly positive.
proof fn lemma_segment_offset_cross_positive(s: Dir, h: int)
    requires
        crate::geometry::dir_seg(s),
        dir_len(s) > 0,
        2 <= h <= WIDTH_LIMIT,
    ensures
        cross_dirs(s, perp(s, h)) >= 1,
{
    let l = dir_len(s);
    let n = perp(s, h);
    crate::geometry::lemma_dir_component_le_len(s);
    lemma_mul_div_scaled(s.dx as int, h, l);
    lemma_mul_div_scaled(-(s.dy as int), h, l);
    lemma_mul_div_neg(s.dy as int, h, l);
    let mx = mul_div(s.dx as int, h, l);
    let my = mul_div(s.dy as int, h, l);
    assert(n.dy as int == mx && n.dx as int == -my);
    assert(cross_dirs(s, n) == s.dx * mx + s.dy * my) by (nonlinear_arith)
        requires
            n.dy as int == mx,
            n.dx as int == -my,
    ;
    // Each term is non-negative: the scaled value keeps the sign.
    if s.dx >= 0 {
        assert((s.dx as int * h) / l >= 0) by (nonlinear_arith)
            requires
                s.dx >= 0,
                h >= 0,
                l > 0,
        ;
        assert(s.dx * mx >= 0) by (nonlinear_arith)
            requires
                s.dx >= 0,
                mx >= 0,
        ;
    } else {
        assert(((-(s.dx as int)) * h) / l >= 0) by (nonlinear_arith)
            requires
                s.dx < 0,
                h >= 0,
                l > 0,
        ;
        assert(s.dx * mx >= 0) by (nonlinear_arith)
            requires
                s.dx < 0,
                mx <= 0,
        ;
    }
    if s.dy >= 0 {
        assert((s.dy as int * h) / l >= 0) by (nonlinear_arith)
            requires
                s.dy >= 0,
                h >= 0,
                l > 0,
        ;
        assert(s.dy * my >= 0) by (nonlinear_arith)
            requires
                s.dy >= 0,
                my >= 0,
        ;
    } else {
        assert(((-(s.dy as int)) * h) / l >= 0) by (nonlinear_arith)
            requires
                s.dy < 0,
                h >= 0,
                l > 0,
        ;
        assert(s.dy * my >= 0) by (nonlinear_arith)
            requires
                s.dy < 0,
                my <= 0,
        ;
    }
    // The dominant component contributes at least one whole unit.
    let ax: int = if s.dx >= 0 {
        s.dx as int
    } else {
        -(s.dx as int)
    };
    let ay: int = if s.dy >= 0 {
        s.dy as int
    } else {
        -(s.dy as int)
    };
    assert(ax * ax == s.dx * s.dx) by (nonlinear_arith)
        requires
            ax == s.dx as int || ax == -(s.dx as int),
    ;
    assert(ay * ay == s.dy * s.dy) by (nonlinear_arith)
        requires
            ay == s.dy as int || ay == -(s.dy as int),
    ;
    assert((ax + ay) * (ax + ay) >= ax * ax + ay * ay) by (nonlinear_arith)
        requires
            ax >= 0,
            ay >= 0,
    ;
    let nsq = (s.dx * s.dx + s.dy * s.dy) as nat;
    crate::num::lemma_sqrt_floor_bounds(nsq);
    assert(l <= ax + ay) by (nonlinear_arith)
        requires
            l * l <= nsq,
            nsq <= (ax + ay) * (ax + ay),
            l >= 0,
            ax + ay >= 0,
    ;
    if ax >= ay {
        assert(2 * ax >= l);
        assert(ax * h >= l) by (nonlinear_arith)
            requires
                2 * ax >= l,
                h >= 2,
                ax >= 0,
                l > 0,
        ;
        assert((ax * h) / l >= 1) by (nonlinear_arith)
            requires
                ax * h >= l,
                l > 0,
        ;
        if s.dx >= 0 {
            assert(mx == (ax * h) / l);
            assert(s.dx * mx >= 1 * 1) by (nonlinear_arith)
                requires
                    s.dx >= 1,
                    mx >= 1,
            ;
        } else {
            assert(mx == -((ax * h) / l));
            assert(s.dx * mx >= 1 * 1) by (nonlinear_arith)
                requires
                    s.dx <= -1,
                    mx <= -1,
            ;
        }
    } else {
        assert(2 * ay >= l);
        assert(ay * h >= l) by (nonlinear_arith)
            requires
                2 * ay >= l,
                h >= 2,
                ay >= 0,
                l > 0,
        ;
        assert((ay * h) / l >= 1) by (nonlinear_arith)
            requires
                ay * h >= l,
                l > 0,
        ;
        if s.dy >= 0 {
            assert(my == (ay * h) / l);
            assert(s.dy * my >= 1 * 1) by (nonlinear_arith)
                requires
                    s.dy >= 1,
                    my >= 1,
            ;
        } else {
            assert(my == -((ay * h) / l));
            assert(s.dy * my >= 1 * 1) by (nonlinear_arith)
                requires
                    s.dy <= -1,
                    my <= -1,
            ;
        }
    }
}

/// Every ring of the body's thick sweep — every body ring but the nose —
/// is strictly convex, for any well-formed path and any even-width body of
/// width at least 4: the body polygon's swept part cannot self-intersect.
pub proof fn lemma_body_swept_rings_convex(pts: Seq<Pt>, w: int)
    requires
        1 <= pts.len() <= MAX_POINTS,
        forall|i: int| 0 <= i < pts.len() ==> pt_in(#[trigger] pts[i]),
        4 <= w <= WIDTH_LIMIT,
    ensures
        forall|k: int| 0 <= k < body_quads(pts, w).len() - 1 ==> quad_strictly_convex(
            #[trigger] body_quads(pts, w)[k]),
{
    let front = spec_front(pts);
    lemma_len_from_bounds(pts, 0);
    if front > 0 {
        lemma_slice_upto_in(pts, 0, front);
        lemma_thick_rings_convex(slice_upto(pts, 0, front), 0, w / 2);
        let thick = thick_quads_from(slice_upto(pts, 0, front), 0, w / 2);
        assert forall|k: int| 0 <= k < body_quads(pts, w).len() - 1 implies quad_strictly_convex(
            #[trigger] body_quads(pts, w)[k]) by {
            assert(body_quads(pts, w)[k] == thick[k]);
        }
    }
}

/// Induction behind the previous lemma.
proof fn lemma_thick_rings_convex(pts: Seq<Pt>, i: int, h: int)
    requires
        forall|k: int| 0 <= k < pts.len() ==> pt_in(#[trigger] pts[k]),
        0 <= i,
        2 <= h <= WIDTH_LIMIT,
    ensures
        forall|k: int| 0 <= k < thick_quads_from(pts, i, h).len() ==> quad_strictly_convex(
            #[trigger] thick_quads_from(pts, i, h)[k]),
    decreases pts.len() - i,
{
    if i + 1 >= pts.len() {
    } else {
        lemma_thick_rings_convex(pts, i + 1, h);
        let rest = thick_quads_from(pts, i + 1, h);
        if seg_len(pts[i], pts[i + 1]) > 0 {
            lemma_swept_ring_convex(pts[i], pts[i + 1], h);
            let q = quad_of_segment(pts[i], pts[i + 1], h);
            let qs = thick_quads_from(pts, i, h);
            assert(qs =~= seq![q] + rest);
            assert forall|k: int| 0 <= k < qs.len() implies quad_strictly_convex(
                #[trigger] qs[k]) by {
                if k == 0 {
                    assert(qs[k] == q);
                } else {
                    assert(qs[k] == rest[k - 1]);
                }
            }
        }
    }
}

/// A path of length exactly zero still yields a body — the builder cannot
/// fail on it — and that body is the single nose ring.
pub proof fn lemma_zero_length_nose_only(pts: Seq<Pt>, w: int)
    requires
        1 <= pts.len() <= MAX_POINTS,
        forall|i: int| 0 <= i < pts.len() ==> pt_in(#[trigger] pts[i]),
        len_from(pts, 0) == 0,
    ensures
        body_quads(pts, w).len() == 1,
        body_quads(pts, w)[0] == nose_quad(pts, w),
{
    assert(spec_front(pts) == 0);
    assert(body_quads(pts, w) =~= Seq::<Quad>::empty().push(nose_quad(pts, w)));
}

/// A parked non-bus vehicle's body color is exactly the faded moving color
/// of the same identity, whatever the registry holds.
pub proof fn lemma_parked_color_fades(
    entries: Seq<(ColorName, Color)>,
    id: CarId,
)
    requires
        id.kind != VehicleKind::Bus,
    ensures
        spec_body_color(entries, id, CarStatus::Parked) == crate::color::spec_fade(
            spec_body_color(entries, id, CarStatus::Moving),
        ),
{
}

/// For an axis-aligned straight path, the construction is exact: the body
/// is one swept rectangle and the nose, the swept ring is strictly convex,
/// and twice its (negatively oriented) shoelace area is exactly
/// `2 * w * (len - NOSE_LENGTH)` — the area of a `w`-wide rectangle over
/// everything but the nose. Diagonal paths keep convexity but can lose a
/// sliver of that area to the fixed-point rounding of the offsets.
pub proof fn lemma_straight_body_exact(pts: Seq<Pt>, ln: int, w: int)
    requires
        pts.len() == 2,
        pt_in(pts[0]),
        pt_in(pts[1]),
        pts[1].x == pts[0].x + ln,
        pts[1].y == pts[0].y,
        NOSE_LENGTH < ln,
        4 <= w <= WIDTH_LIMIT,
        w % 2 == 0,
    ensures
        len_from(pts, 0) == ln,
        body_quads(pts, w).len() == 2,
        quad_area2(body_quads(pts, w)[0]) == -2 * w * (ln - NOSE_LENGTH),
        quad_strictly_convex(body_quads(pts, w)[0]),
        quad_strictly_convex(body_quads(pts, w)[1]),
{
    let x = pts[0].x as int;
    let y = pts[0].y as int;
    let h = w / 2;
    let quarter = w / 4;
    let front = ln - NOSE_LENGTH;

    // The path's length is exactly `ln`.
    let s = spec_delta(pts[0], pts[1]);
    assert(s.dx == ln && s.dy == 0);
    assert(ln * ln <= ln * ln < (ln + 1) * (ln + 1)) by (nonlinear_arith)
        requires
            ln >= 0,
    ;
    lemma_sqrt_floor_unique((ln * ln) as nat, ln as nat);
    assert(s.dx * s.dx + s.dy * s.dy == ln * ln && ln * ln >= 0) by (nonlinear_arith)
        requires
            s.dx == ln,
            s.dy == 0,
            ln >= 0,
    ;
    assert(seg_len(pts[0], pts[1]) == ln);
    assert(len_from(pts, 1) == 0);
    assert(len_from(pts, 0) == ln);
    assert(spec_front(pts) == front);

    // Exact division facts for the interpolation and the offsets.
    assert((ln * front) / ln == front && (ln * h) / ln == h && (ln * quarter) / ln == quarter)
        by (nonlinear_arith)
        requires
            ln > 0,
    ;
    assert(mul_div(ln, front, ln) == front);
    assert(mul_div(ln, h, ln) == h);
    assert(mul_div(ln, quarter, ln) == quarter);
    assert(mul_div(0, front, ln) == 0 && mul_div(0, h, ln) == 0 && mul_div(0, quarter, ln) == 0);

    // The slice ends exactly at the nose's rear corner.
    let cut = crate::geometry::interp(pts[0], pts[1], front, ln);
    assert(cut.x == x + front && cut.y == y);
    let sl = slice_upto(pts, 0, front);
    assert(sl =~= seq![pts[0], cut]);

    // The swept ring is the exact rectangle.
    let s2 = spec_delta(pts[0], cut);
    assert(s2.dx == front && s2.dy == 0);
    assert(front * front <= front * front < (front + 1) * (front + 1)) by (nonlinear_arith)
        requires
            front >= 0,
    ;
    lemma_sqrt_floor_unique((front * front) as nat, front as nat);
    assert(s2.dx * s2.dx + s2.dy * s2.dy == front * front && front * front >= 0)
        by (nonlinear_arith)
        requires
            s2.dx == front,
            s2.dy == 0,
            front >= 0,
    ;
    assert(seg_len(pts[0], cut) == front);
    assert((front * h) / front == h) by (nonlinear_arith)
        requires
            front > 0,
    ;
    assert(mul_div(front, h, front) == h);
    assert(mul_div(0, h, front) == 0);
    let n = perp(s2, h);
    assert(n.dx == 0 && n.dy == h);
    let rect = quad_of_segment(pts[0], cut, h);
    assert(rect.a == Pt { x: (x as i64), y: ((y + h) as i64) });
    assert(rect.b == Pt { x: ((x + front) as i64), y: ((y + h) as i64) });
    assert(rect.c == Pt { x: ((x + front) as i64), y: ((y - h) as i64) });
    assert(rect.d == Pt { x: (x as i64), y: ((y - h) as i64) });
    assert(thick_quads_from(sl, 1, h) =~= Seq::<Quad>::empty());
    assert(thick_quads_from(sl, 0, h) =~= seq![rect]);

    // The body is the rectangle and the nose.
    let body = body_quads(pts, w);
    assert(body =~= seq![rect, nose_quad(pts, w)]);

    // Shoelace area of the rectangle.
    assert(quad_area2(rect) == -2 * w * front) by (nonlinear_arith)
        requires
            rect.a.x == x && rect.a.y == y + h,
            rect.b.x == x + front && rect.b.y == y + h,
            rect.c.x == x + front && rect.c.y == y - h,
            rect.d.x == x && rect.d.y == y - h,
            w == 2 * h,
    ;

    // Convexity of the rectangle.
    lemma_swept_ring_convex(pts[0], cut, h);

    // The nose's corners.
    let corner = point_along(pts, 0, front);
    let tip = point_along(pts, 0, ln);
    assert(corner.0 == cut && corner.1 == s);
    let tip_pt = crate::geometry::interp(pts[0], pts[1], ln, ln);
    assert((ln * ln) / ln == ln) by (nonlinear_arith)
        requires
            ln > 0,
    ;
    assert(mul_div(ln, ln, ln) == ln);
    assert(mul_div(0, ln, ln) == 0);
    assert(tip_pt.x == x + ln && tip_pt.y == y);
    assert(tip.0 == tip_pt && tip.1 == s);
    let n1 = perp(s, h);
    let n2 = perp(s, quarter);
    assert(n1.dx == 0 && n1.dy == h);
    assert(n2.dx == 0 && n2.dy == quarter);
    let nose = nose_quad(pts, w);
    assert(nose.a == Pt { x: ((x + front) as i64), y: ((y + h) as i64) });
    assert(nose.b == Pt { x: ((x + front) as i64), y: ((y - h) as i64) });
    assert(nose.c == Pt { x: ((x + ln) as i64), y: ((y - quarter) as i64) });
    assert(nose.d == Pt { x: ((x + ln) as i64), y: ((y + quarter) as i64) });

    // Convexity of the nose: all four edge cross products are positive.
    let e1 = spec_delta(nose.a, nose.b);
    let e2 = spec_delta(nose.b, nose.c);
    let e3 = spec_delta(nose.c, nose.d);
    let e4 = spec_delta(nose.d, nose.a);
    assert(e1.dx == 0 && e1.dy == -2 * h);
    assert(e2.dx == NOSE_LENGTH && e2.dy == h - quarter);
    assert(e3.dx == 0 && e3.dy == 2 * quarter);
    assert(e4.dx == -NOSE_LENGTH && e4.dy == h - quarter);
    assert(cross_dirs(e1, e2) == 2 * h * NOSE_LENGTH && cross_dirs(e2, e3) == 2 * quarter
        * NOSE_LENGTH && cross_dirs(e3, e4) == 2 * quarter * NOSE_LENGTH && cross_dirs(e4, e1) == 2
        * h * NOSE_LENGTH) by (nonlinear_arith)
        requires
            e1.dx == 0 && e1.dy == -2 * h,
            e2.dx == NOSE_LENGTH && e2.dy == h - quarter,
            e3.dx == 0 && e3.dy == 2 * quarter,
            e4.dx == -NOSE_LENGTH && e4.dy == h - quarter,
    ;
    assert(2 * h * NOSE_LENGTH > 0 && 2 * quarter * NOSE_LENGTH > 0) by (nonlinear_arith)
        requires
            h >= 1,
            quarter >= 1,
    ;
    assert(quad_strictly_convex(nose));
}

} // verus!
