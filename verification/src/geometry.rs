//! Planar primitives over fixed-point coordinates: points, displacement
//! vectors, segment lengths, interpolation along a segment, perpendicular
//! offsets, and the four-cornered rings every rendered shape is made of.

use vstd::prelude::*;
use crate::num::{isqrt, lemma_mul_div_bound, lemma_mul_div_scaled, lemma_sqrt_floor_bounds,
    mul_div, mul_div_i64, sqrt_floor};

verus! {

/// Largest magnitude of an input path coordinate, in milliunits.
pub const COORD_LIMIT: i64 = 1_000_000_000;

/// Largest width of a rendered body, in milliunits.
pub const WIDTH_LIMIT: i64 = 100_000;

/// Segment endpoints handed to the length and offset primitives stay within
/// this magnitude: an input coordinate plus at most one perpendicular offset.
pub const SEG_PT_LIMIT: i64 = 1_100_000_000;

/// No segment of such endpoints is longer than this.
pub const SEG_LEN_LIMIT: i64 = 3_200_000_000;

/// Largest magnitude of a coordinate of any point this library computes:
/// an interpolated point plus a perpendicular offset stays well inside.
pub const WORK_LIMIT: i64 = 4_000_000_000;

/// A point (or position) in the plane, in milliunits.
#[derive(Clone, Copy, PartialEq, Eq, Structural, Debug)]
pub struct Pt {
    pub x: i64,
    pub y: i64,
}

/// A displacement: the difference of two points, also used as a heading.
#[derive(Clone, Copy, PartialEq, Eq, Structural, Debug)]
pub struct Dir {
    pub dx: i64,
    pub dy: i64,
}

/// A closed four-cornered ring, listed in order `a, b, c, d`.
#[derive(Clone, Copy, PartialEq, Eq, Structural, Debug)]
pub struct Quad {
    pub a: Pt,
    pub b: Pt,
    pub c: Pt,
    pub d: Pt,
}

/// An input point: within the coordinate limit.
pub open spec fn pt_in(p: Pt) -> bool {
    -COORD_LIMIT <= p.x <= COORD_LIMIT && -COORD_LIMIT <= p.y <= COORD_LIMIT
}

/// A point a segment primitive may take: input point plus one offset.
pub open spec fn pt_seg(p: Pt) -> bool {
    -SEG_PT_LIMIT <= p.x <= SEG_PT_LIMIT && -SEG_PT_LIMIT <= p.y <= SEG_PT_LIMIT
}

/// Any point this library computes stays within this bound.
pub open spec fn pt_work(p: Pt) -> bool {
    -WORK_LIMIT <= p.x <= WORK_LIMIT && -WORK_LIMIT <= p.y <= WORK_LIMIT
}

/// A displacement between two segment points.
pub open spec fn dir_seg(d: Dir) -> bool {
    -2 * SEG_PT_LIMIT <= d.dx <= 2 * SEG_PT_LIMIT && -2 * SEG_PT_LIMIT <= d.dy <= 2
        * SEG_PT_LIMIT
}

/// The displacement from `a` to `b`.
pub open spec fn spec_delta(a: Pt, b: Pt) -> Dir {
    Dir { dx: (b.x - a.x) as i64, dy: (b.y - a.y) as i64 }
}

/// Length of a displacement: the floor square root of the exact squared
/// length, the one rounding the whole crate measures by.
pub open spec fn dir_len(d: Dir) -> int {
    sqrt_floor((d.dx * d.dx + d.dy * d.dy) as nat) as int
}

/// Length of the segment from `a` to `b`.
pub open spec fn seg_len(a: Pt, b: Pt) -> int {
    dir_len(spec_delta(a, b))
}

/// Neither component of a displacement exceeds its length.
pub proof fn lemma_dir_component_le_len(d: Dir)
    ensures
        -dir_len(d) <= d.dx <= dir_len(d),
        -dir_len(d) <= d.dy <= dir_len(d),
{
    let n = (d.dx * d.dx + d.dy * d.dy) as nat;
    assert(d.dx * d.dx >= 0) by (nonlinear_arith);
    assert(d.dy * d.dy >= 0) by (nonlinear_arith);
    lemma_sqrt_floor_bounds(n);
    let l = sqrt_floor(n) as int;
    assert(d.dx <= l && -l <= d.dx) by (nonlinear_arith)
        requires
            d.dx * d.dx <= n,
            n < (l + 1) * (l + 1),
            l >= 0,
    ;
    assert(d.dy <= l && -l <= d.dy) by (nonlinear_arith)
        requires
            d.dy * d.dy <= n,
            n < (l + 1) * (l + 1),
            l >= 0,
    ;
}

/// A displacement has length zero exactly when it is zero.
pub proof fn lemma_dir_len_zero(d: Dir)
    ensures
        dir_len(d) == 0 <==> (d.dx == 0 && d.dy == 0),
{
    let n = (d.dx * d.dx + d.dy * d.dy) as nat;
    assert(d.dx * d.dx >= 0) by (nonlinear_arith);
    assert(d.dy * d.dy >= 0) by (nonlinear_arith);
    lemma_sqrt_floor_bounds(n);
    lemma_dir_component_le_len(d);
    if d.dx == 0 && d.dy == 0 {
        assert(n == 0);
    }
}

/// The displacement from `a` to `b`, on machine integers.
pub fn delta(a: Pt, b: Pt) -> (d: Dir)
    requires
        pt_seg(a),
        pt_seg(b),
    ensures
        d == spec_delta(a, b),
        dir_seg(d),
{
    Dir { dx: b.x - a.x, dy: b.y - a.y }
}

/// Length of a displacement, on machine integers.
pub fn dir_len_i64(d: Dir) -> (l: i64)
    requires
        dir_seg(d),
    ensures
        l == dir_len(d),
        0 <= l <= SEG_LEN_LIMIT,
        l == 0 <==> d.dx == 0 && d.dy == 0,
{
    let dx: i64 = d.dx;
    let dy: i64 = d.dy;
    let ux: u64 = if dx >= 0 {
        dx as u64
    } else {
        (-dx) as u64
    };
    let uy: u64 = if dy >= 0 {
        dy as u64
    } else {
        (-dy) as u64
    };
    assert(ux * ux == dx * dx && ux * ux <= 4_840_000_000_000_000_000u64) by (nonlinear_arith)
        requires
            ux as int == dx as int || ux as int == -(dx as int),
            -2_200_000_000 <= dx <= 2_200_000_000,
    ;
    assert(uy * uy == dy * dy && uy * uy <= 4_840_000_000_000_000_000u64) by (nonlinear_arith)
        requires
            uy as int == dy as int || uy as int == -(dy as int),
            -2_200_000_000 <= dy <= 2_200_000_000,
    ;
    let n: u64 = ux * ux + uy * uy;
    let r: u64 = isqrt(n);
    assert(r <= SEG_LEN_LIMIT) by (nonlinear_arith)
        requires
            r * r <= n <= 9_680_000_000_000_000_000u64,
    ;
    proof {
        lemma_dir_len_zero(d);
    }
    r as i64
}

/// Segment length on machine integers.
pub fn seg_len_i64(a: Pt, b: Pt) -> (l: i64)
    requires
        pt_seg(a),
        pt_seg(b),
    ensures
        l == seg_len(a, b),
        0 <= l <= SEG_LEN_LIMIT,
        l == 0 <==> a.x == b.x && a.y == b.y,
{
    dir_len_i64(delta(a, b))
}

/// `p` displaced by `d`.
pub open spec fn pt_add(p: Pt, d: Dir) -> Pt {
    Pt { x: (p.x + d.dx) as i64, y: (p.y + d.dy) as i64 }
}

/// `p` displaced against `d`.
pub open spec fn pt_sub(p: Pt, d: Dir) -> Pt {
    Pt { x: (p.x - d.dx) as i64, y: (p.y - d.dy) as i64 }
}

/// `pt_add` on machine integers, for a point plus a short offset.
pub fn pt_add_i64(p: Pt, d: Dir) -> (r: Pt)
    requires
        pt_work(p),
        -WIDTH_LIMIT <= d.dx <= WIDTH_LIMIT,
        -WIDTH_LIMIT <= d.dy <= WIDTH_LIMIT,
    ensures
        r == pt_add(p, d),
{
    Pt { x: p.x + d.dx, y: p.y + d.dy }
}

/// `pt_sub` on machine integers, for a point minus a short offset.
pub fn pt_sub_i64(p: Pt, d: Dir) -> (r: Pt)
    requires
        pt_work(p),
        -WIDTH_LIMIT <= d.dx <= WIDTH_LIMIT,
        -WIDTH_LIMIT <= d.dy <= WIDTH_LIMIT,
    ensures
        r == pt_sub(p, d),
{
    Pt { x: p.x - d.dx, y: p.y - d.dy }
}

/// The point `d` milliunits along the segment from `a` to `b`, whose length
/// is `l`: each coordinate moves by the exact fraction `d / l` of the
/// displacement, truncated toward zero.
pub open spec fn interp(a: Pt, b: Pt, d: int, l: int) -> Pt
    recommends
        l > 0,
{
    Pt {
        x: (a.x + mul_div(b.x - a.x, d, l)) as i64,
        y: (a.y + mul_div(b.y - a.y, d, l)) as i64,
    }
}

/// `interp` on machine integers: the result stays between the endpoints
/// coordinate-wise, so it is an input point again.
pub fn interp_i64(a: Pt, b: Pt, d: i64, l: i64) -> (r: Pt)
    requires
        pt_in(a),
        pt_in(b),
        l == seg_len(a, b),
        0 < l <= SEG_LEN_LIMIT,
        0 <= d <= l,
    ensures
        r == interp(a, b, d as int, l as int),
        pt_in(r),
{
    let dd = delta(a, b);
    proof {
        assert((dd.dx as int) * (d as int) <= i64::MAX && -((dd.dx as int) * (d as int))
            <= i64::MAX) by (nonlinear_arith)
            requires
                -2_000_000_000 <= dd.dx <= 2_000_000_000,
                0 <= d <= SEG_LEN_LIMIT,
        ;
        assert((dd.dy as int) * (d as int) <= i64::MAX && -((dd.dy as int) * (d as int))
            <= i64::MAX) by (nonlinear_arith)
            requires
                -2_000_000_000 <= dd.dy <= 2_000_000_000,
                0 <= d <= SEG_LEN_LIMIT,
        ;
        lemma_mul_div_bound(dd.dx as int, d as int, l as int);
        lemma_mul_div_bound(dd.dy as int, d as int, l as int);
    }
    let ox = mul_div_i64(dd.dx, d, l);
    let oy = mul_div_i64(dd.dy, d, l);
    Pt { x: a.x + ox, y: a.y + oy }
}

/// The offset of magnitude at most `h` perpendicular to `d`, on the +90°
/// side: `d` rotated by +90° is `(-dy, dx)`, and each component is scaled
/// by `h / |d|` with truncation toward zero.
pub open spec fn perp(d: Dir, h: int) -> Dir
    recommends
        dir_len(d) > 0,
{
    Dir {
        dx: mul_div(-(d.dy as int), h, dir_len(d)) as i64,
        dy: mul_div(d.dx as int, h, dir_len(d)) as i64,
    }
}

/// The components of a perpendicular offset are bounded by its magnitude.
pub proof fn lemma_perp_bounds(d: Dir, h: int)
    requires
        dir_len(d) > 0,
        0 <= h,
    ensures
        -h <= perp(d, h).dx <= h,
        -h <= perp(d, h).dy <= h,
{
    lemma_dir_component_le_len(d);
    lemma_mul_div_scaled(-(d.dy as int), h, dir_len(d));
    lemma_mul_div_scaled(d.dx as int, h, dir_len(d));
}

/// `perp` on machine integers; the result's components are bounded by `h`.
pub fn perp_i64(d: Dir, h: i64) -> (r: Dir)
    requires
        dir_seg(d),
        dir_len(d) > 0,
        0 <= h <= WIDTH_LIMIT,
    ensures
        r == perp(d, h as int),
        -h <= r.dx <= h,
        -h <= r.dy <= h,
{
    let l: i64 = dir_len_i64(d);
    proof {
        lemma_dir_component_le_len(d);
        assert(-(d.dy as int) * (h as int) <= i64::MAX && -(-(d.dy as int) * (h as int))
            <= i64::MAX) by (nonlinear_arith)
            requires
                -2_200_000_000 <= d.dy <= 2_200_000_000,
                0 <= h <= WIDTH_LIMIT,
        ;
        assert((d.dx as int) * (h as int) <= i64::MAX && -((d.dx as int) * (h as int))
            <= i64::MAX) by (nonlinear_arith)
            requires
                -2_200_000_000 <= d.dx <= 2_200_000_000,
                0 <= h <= WIDTH_LIMIT,
        ;
        lemma_mul_div_scaled(-d.dy as int, h as int, l as int);
        lemma_mul_div_scaled(d.dx as int, h as int, l as int);
    }
    let ox: i64 = mul_div_i64(-d.dy, h, l);
    let oy: i64 = mul_div_i64(d.dx, h, l);
    Dir { dx: ox, dy: oy }
}

/// A perpendicular offset of magnitude at least 2 of a non-degenerate
/// heading is itself nonzero: one component of the heading is at least
/// half its length, and scaling it keeps at least one whole unit.
pub proof fn lemma_perp_nonzero(d: Dir, h: int)
    requires
        dir_seg(d),
        dir_len(d) > 0,
        2 <= h <= WIDTH_LIMIT,
    ensures
        !(perp(d, h).dx == 0 && perp(d, h).dy == 0),
{
    let l = dir_len(d);
    let n = (d.dx * d.dx + d.dy * d.dy) as nat;
    lemma_dir_component_le_len(d);
    let ax: int = if d.dx >= 0 {
        d.dx as int
    } else {
        -(d.dx as int)
    };
    let ay: int = if d.dy >= 0 {
        d.dy as int
    } else {
        -(d.dy as int)
    };
    let s = ax + ay;
    assert(ax * ax == d.dx * d.dx) by (nonlinear_arith)
        requires
            ax == d.dx as int || ax == -(d.dx as int),
    ;
    assert(ay * ay == d.dy * d.dy) by (nonlinear_arith)
        requires
            ay == d.dy as int || ay == -(d.dy as int),
    ;
    assert(s * s >= ax * ax + ay * ay) by (nonlinear_arith)
        requires
            s == ax + ay,
            ax >= 0,
            ay >= 0,
    ;
    crate::num::lemma_sqrt_floor_bounds(n);
    assert(l <= s) by (nonlinear_arith)
        requires
            l * l <= n,
            n <= s * s,
            l >= 0,
            s >= 0,
    ;
    lemma_mul_div_scaled(d.dx as int, h, l);
    lemma_mul_div_scaled(-(d.dy as int), h, l);
    if ax >= ay {
        assert(2 * ax >= l);
        assert(ax * h >= l) by (nonlinear_arith)
            requires
                2 * ax >= l,
                h >= 2,
                l > 0,
                ax >= 0,
        ;
        assert((ax * h) / l >= 1) by (nonlinear_arith)
            requires
                ax * h >= l,
                l > 0,
        ;
        let m = crate::num::mul_div(d.dx as int, h, l);
        if d.dx >= 0 {
            assert(m == (ax * h) / l);
        } else {
            assert(m == -((ax * h) / l));
        }
        assert(m >= 1 || m <= -1);
        assert(perp(d, h).dy != 0);
    } else {
        assert(2 * ay >= l);
        assert(ay * h >= l) by (nonlinear_arith)
            requires
                2 * ay >= l,
                h >= 2,
                l > 0,
                ay >= 0,
        ;
        assert((ay * h) / l >= 1) by (nonlinear_arith)
            requires
                ay * h >= l,
                l > 0,
        ;
        let m = crate::num::mul_div(-(d.dy as int), h, l);
        if d.dy >= 0 {
            assert(m == -((ay * h) / l));
        } else {
            assert(m == (ay * h) / l);
        }
        assert(m >= 1 || m <= -1);
        assert(perp(d, h).dx != 0);
    }
}

/// The parallelogram swept when the segment from `p` to `q` is thickened
/// by `h` on each side.
pub open spec fn quad_of_segment(p: Pt, q: Pt, h: int) -> Quad
    recommends
        seg_len(p, q) > 0,
{
    let n = perp(spec_delta(p, q), h);
    Quad { a: pt_add(p, n), b: pt_add(q, n), c: pt_sub(q, n), d: pt_sub(p, n) }
}

/// Largest magnitude a hit-test query coordinate may have.
pub const QUERY_LIMIT: i64 = 1_000_000_000_000;

/// A point a hit test may ask about.
pub open spec fn pt_query(p: Pt) -> bool {
    -QUERY_LIMIT <= p.x <= QUERY_LIMIT && -QUERY_LIMIT <= p.y <= QUERY_LIMIT
}

/// Twice the signed area of the triangle `(o, u, v)`: positive when `v`
/// lies to the left of the directed line from `o` through `u`.
pub open spec fn cross3(o: Pt, u: Pt, v: Pt) -> int {
    (u.x - o.x) * (v.y - o.y) - (u.y - o.y) * (v.x - o.x)
}

/// `cross3` on machine integers.
pub fn cross3_i128(o: Pt, u: Pt, v: Pt) -> (r: i128)
    requires
        pt_query(o),
        pt_query(u),
        pt_query(v),
    ensures
        r == cross3(o, u, v),
{
    let ux: i128 = (u.x as i128) - (o.x as i128);
    let uy: i128 = (u.y as i128) - (o.y as i128);
    let vx: i128 = (v.x as i128) - (o.x as i128);
    let vy: i128 = (v.y as i128) - (o.y as i128);
    proof {
        assert(-8_000_000_000_000_000_000_000_000 <= ux * vy
            <= 8_000_000_000_000_000_000_000_000) by (nonlinear_arith)
            requires
                -2_000_000_000_000 <= ux <= 2_000_000_000_000,
                -2_000_000_000_000 <= vy <= 2_000_000_000_000,
        ;
        assert(-8_000_000_000_000_000_000_000_000 <= uy * vx
            <= 8_000_000_000_000_000_000_000_000) by (nonlinear_arith)
            requires
                -2_000_000_000_000 <= uy <= 2_000_000_000_000,
                -2_000_000_000_000 <= vx <= 2_000_000_000_000,
        ;
    }
    ux * vy - uy * vx
}

/// Whether a ray from `p` toward +x crosses the edge from `a` to `b`,
/// counting an endpoint on the ray's height only at the edge's lower end:
/// the exact crossing test of the even-odd rule.
pub open spec fn edge_crosses(a: Pt, b: Pt, p: Pt) -> bool {
    if a.y <= p.y < b.y {
        cross3(a, b, p) > 0
    } else if b.y <= p.y < a.y {
        cross3(b, a, p) > 0
    } else {
        false
    }
}

/// `edge_crosses` on machine integers.
pub fn edge_crosses_i64(a: Pt, b: Pt, p: Pt) -> (r: bool)
    requires
        pt_query(a),
        pt_query(b),
        pt_query(p),
    ensures
        r == edge_crosses(a, b, p),
{
    if a.y <= p.y && p.y < b.y {
        cross3_i128(a, b, p) > 0
    } else if b.y <= p.y && p.y < a.y {
        cross3_i128(b, a, p) > 0
    } else {
        false
    }
}

/// Containment of `p` in the ring `q` by the even-odd rule: the parity of
/// the crossings of a rightward ray with the four edges.
pub open spec fn quad_contains(q: Quad, p: Pt) -> bool {
    (edge_crosses(q.a, q.b, p) != edge_crosses(q.b, q.c, p)) != (edge_crosses(q.c, q.d, p)
        != edge_crosses(q.d, q.a, p))
}

/// `quad_contains` on machine integers.
pub fn quad_contains_i64(q: &Quad, p: Pt) -> (r: bool)
    requires
        pt_query(q.a),
        pt_query(q.b),
        pt_query(q.c),
        pt_query(q.d),
        pt_query(p),
    ensures
        r == quad_contains(*q, p),
{
    let e1 = edge_crosses_i64(q.a, q.b, p);
    let e2 = edge_crosses_i64(q.b, q.c, p);
    let e3 = edge_crosses_i64(q.c, q.d, p);
    let e4 = edge_crosses_i64(q.d, q.a, p);
    (e1 != e2) != (e3 != e4)
}

/// The cross product of two displacements.
pub open spec fn cross_dirs(u: Dir, v: Dir) -> int {
    u.dx * v.dy - u.dy * v.dx
}

/// A strictly convex ring: the cross products of each pair of consecutive
/// edges all have the same strict sign. Such a closed ring cannot
/// self-intersect.
pub open spec fn quad_strictly_convex(q: Quad) -> bool {
    let e1 = spec_delta(q.a, q.b);
    let e2 = spec_delta(q.b, q.c);
    let e3 = spec_delta(q.c, q.d);
    let e4 = spec_delta(q.d, q.a);
    (cross_dirs(e1, e2) > 0 && cross_dirs(e2, e3) > 0 && cross_dirs(e3, e4) > 0 && cross_dirs(
        e4,
        e1,
    ) > 0) || (cross_dirs(e1, e2) < 0 && cross_dirs(e2, e3) < 0 && cross_dirs(e3, e4) < 0
        && cross_dirs(e4, e1) < 0)
}

/// Twice the signed area of a ring, by the shoelace formula.
pub open spec fn quad_area2(q: Quad) -> int {
    (q.a.x * q.b.y - q.b.x * q.a.y) + (q.b.x * q.c.y - q.c.x * q.b.y) + (q.c.x * q.d.y - q.d.x
        * q.c.y) + (q.d.x * q.a.y - q.a.x * q.d.y)
}

/// `quad_of_segment` on machine integers.
pub fn quad_of_segment_i64(p: Pt, q: Pt, h: i64) -> (r: Quad)
    requires
        pt_seg(p),
        pt_seg(q),
        seg_len(p, q) > 0,
        0 <= h <= WIDTH_LIMIT,
    ensures
        r == quad_of_segment(p, q, h as int),
{
    let d = delta(p, q);
    let n = perp_i64(d, h);
    Quad {
        a: pt_add_i64(p, n),
        b: pt_add_i64(q, n),
        c: pt_sub_i64(q, n),
        d: pt_sub_i64(p, n),
    }
}

} // verus!
