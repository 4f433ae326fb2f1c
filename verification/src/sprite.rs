//! The sprite builder: from one vehicle's pose (centerline path, status,
//! pending turn, identity, label) to the drawable geometry for one frame —
//! the body polygon, the decorations, and their colors.

use vstd::prelude::*;
use crate::color::{agent_color, fade, spec_agent_color, spec_brake_light_color,
    spec_bus_color, spec_fade, spec_get_def, spec_label_color, spec_register,
    spec_turn_arrow_color, Color, ColorName, ColorScheme};
use crate::geometry::{dir_len, dir_seg, perp, perp_i64, pt_add, pt_add_i64, pt_in, pt_seg, pt_sub,
    pt_sub_i64, Dir, Pt, Quad, WIDTH_LIMIT};
use crate::path::{len_from, lemma_len_from_bounds, lemma_slice_upto_in, point_along, slice_upto,
    slice_upto_push, thick_quads_from, thick_quads_push, Path, MAX_POINTS};

verus! {

/// Length of the tapered nose at the front of the body, in milliunits.
pub const NOSE_LENGTH: i64 = 1000;

/// How far before the path's end the turn arrow sits, in milliunits.
pub const ARROW_SETBACK: i64 = 2500;

/// Thickness of the turn arrow, in milliunits.
pub const ARROW_THICKNESS: i64 = 500;

/// How far from the path's start the brake light sits, in milliunits.
pub const BRAKE_SETBACK: i64 = 500;

/// Gap the brake light leaves on each side of the body, in milliunits.
pub const BRAKE_GAP: i64 = 200;

/// Thickness of the brake light, in milliunits.
pub const BRAKE_THICKNESS: i64 = 300;

/// How far along the body a label is positioned, in milliunits.
pub const LABEL_SETBACK: i64 = 9000;

/// Font size of a label's text.
pub const LABEL_FONT_SIZE: u8 = 20;

/// The width of an ordinary car body, in milliunits.
pub const CAR_WIDTH: i64 = 1750;

/// What a vehicle is doing this frame.
#[derive(Clone, Copy, PartialEq, Eq, Structural, Debug)]
pub enum CarStatus {
    Moving,
    Parked,
}

/// What kind of vehicle an identity belongs to.
#[derive(Clone, Copy, PartialEq, Eq, Structural, Debug)]
pub enum VehicleKind {
    Car,
    Bus,
    Bike,
}

/// The classification of a pending turn. The last two kinds belong to
/// pedestrians and are invalid for a vehicle.
#[derive(Clone, Copy, PartialEq, Eq, Structural, Debug)]
pub enum TurnKind {
    Straight,
    Left,
    Right,
    LaneChangeLeft,
    LaneChangeRight,
    Crosswalk,
    SharedSidewalkCorner,
}

/// A vehicle's identity: a number and a kind.
#[derive(Clone, Copy, PartialEq, Eq, Structural, Debug)]
pub struct CarId {
    pub idx: u64,
    pub kind: VehicleKind,
}

/// Everything the simulation reports about one vehicle for one frame.
#[derive(Clone, Debug)]
pub struct AgentPose {
    pub id: CarId,
    pub body: Path,
    pub status: CarStatus,
    pub waiting_for_turn: Option<TurnKind>,
    pub label: Option<String>,
    pub zorder: i64,
}

/// A straight stroke of the given thickness between two points; the
/// renderer sweeps it into a rectangle.
#[derive(Clone, Copy, PartialEq, Eq, Structural, Debug)]
pub struct ThickSegment {
    pub from: Pt,
    pub to: Pt,
    pub thickness: i64,
}

/// A label positioned along the body.
#[derive(Clone, Debug)]
pub struct Label {
    pub text: String,
    pub pos: Pt,
    pub color: Color,
    pub font_size: u8,
}

/// Building fails only on a data-contract breach upstream.
#[derive(Clone, Copy, PartialEq, Eq, Structural, Debug)]
pub enum BuildError {
    /// A pedestrian-only turn kind was assigned to a vehicle.
    PedestrianTurnKind,
}

/// The drawable geometry of one vehicle for one frame.
#[derive(Clone, Debug)]
pub struct CarGeometry {
    pub id: CarId,
    pub path: Path,
    pub width: i64,
    pub zorder: i64,
    pub body: Vec<Quad>,
    pub body_color: Color,
    /// Center of the parked-vehicle icon, drawn unrotated at a fixed scale.
    pub parked_icon: Option<Pt>,
    pub turn_arrow: Option<(ThickSegment, Color)>,
    pub brake_light: Option<(ThickSegment, Color)>,
    pub label: Option<Label>,
}

/// A turn kind that is invalid for a vehicle.
pub open spec fn spec_is_pedestrian(turn: Option<TurnKind>) -> bool {
    turn == Some(TurnKind::Crosswalk) || turn == Some(TurnKind::SharedSidewalkCorner)
}

/// A pending turn that earns an arrow.
pub open spec fn spec_has_arrow(turn: Option<TurnKind>) -> bool {
    turn == Some(TurnKind::Left) || turn == Some(TurnKind::Right) || turn == Some(
        TurnKind::LaneChangeLeft,
    ) || turn == Some(TurnKind::LaneChangeRight)
}

/// A pending turn on the left side.
pub open spec fn spec_arrow_left(turn: Option<TurnKind>) -> bool {
    turn == Some(TurnKind::Left) || turn == Some(TurnKind::LaneChangeLeft)
}

/// The distance of the nose's rear corner from the path's start: the path's
/// length less the nose, clamped at zero for short paths.
pub open spec fn spec_front(pts: Seq<Pt>) -> int {
    let len = len_from(pts, 0);
    if len - NOSE_LENGTH > 0 {
        len - NOSE_LENGTH
    } else {
        0
    }
}

/// The nose: a tapered ring from the full half-width at the rear corner to
/// a quarter-width at the tip.
pub open spec fn nose_quad(pts: Seq<Pt>, w: int) -> Quad {
    let len = len_from(pts, 0);
    let corner = point_along(pts, 0, spec_front(pts));
    let tip = point_along(pts, 0, len);
    let n1 = perp(corner.1, w / 2);
    let n2 = perp(tip.1, w / 4);
    Quad {
        a: pt_add(corner.0, n1),
        b: pt_sub(corner.0, n1),
        c: pt_sub(tip.0, n2),
        d: pt_add(tip.0, n2),
    }
}

/// The body: the path up to the nose swept to the full width, then the
/// nose ring. A path shorter than the nose has a nose-only body.
pub open spec fn body_quads(pts: Seq<Pt>, w: int) -> Seq<Quad> {
    let front = spec_front(pts);
    let thick: Seq<Quad> = if front > 0 {
        thick_quads_from(slice_upto(pts, 0, front), 0, w / 2)
    } else {
        Seq::empty()
    };
    thick.push(nose_quad(pts, w))
}

/// Sum of the x (and y) coordinates of all ring corners from index `i` on.
pub open spec fn corner_sums_from(qs: Seq<Quad>, i: int) -> (int, int)
    decreases qs.len() - i,
{
    if i < 0 || i >= qs.len() {
        (0, 0)
    } else {
        let rest = corner_sums_from(qs, i + 1);
        let q = qs[i];
        (q.a.x + q.b.x + q.c.x + q.d.x + rest.0, q.a.y + q.b.y + q.c.y + q.d.y + rest.1)
    }
}

/// The centroid of a body's ring corners, each coordinate truncated toward
/// zero: where the parked icon is centered.
pub open spec fn body_center(qs: Seq<Quad>) -> Pt
    recommends
        qs.len() >= 1,
{
    let sums = corner_sums_from(qs, 0);
    Pt {
        x: crate::num::mul_div(sums.0, 1, 4 * qs.len() as int) as i64,
        y: crate::num::mul_div(sums.1, 1, 4 * qs.len() as int) as i64,
    }
}

/// Where the turn arrow sits: the point and heading a fixed setback before
/// the path's end (clamped to the start on short paths).
pub open spec fn spec_arrow_anchor(pts: Seq<Pt>) -> (Pt, Dir) {
    let len = len_from(pts, 0);
    let d = if len - ARROW_SETBACK > 0 {
        len - ARROW_SETBACK
    } else {
        0
    };
    point_along(pts, 0, d)
}

/// The turn arrow: a stroke across the body, 0.8 of the body width long,
/// pointing from the +90° side to the −90° side for a left turn and the
/// reverse for a right turn.
pub open spec fn spec_turn_arrow(pts: Seq<Pt>, w: int, turn: Option<TurnKind>) -> Option<
    ThickSegment,
> {
    if spec_has_arrow(turn) {
        let anchor = spec_arrow_anchor(pts);
        let off = perp(anchor.1, w * 2 / 5);
        if spec_arrow_left(turn) {
            Some(
                ThickSegment {
                    from: pt_add(anchor.0, off),
                    to: pt_sub(anchor.0, off),
                    thickness: ARROW_THICKNESS,
                },
            )
        } else {
            Some(
                ThickSegment {
                    from: pt_sub(anchor.0, off),
                    to: pt_add(anchor.0, off),
                    thickness: ARROW_THICKNESS,
                },
            )
        }
    } else {
        None
    }
}

/// The brake light: a stroke across the rear of the body, from the −90°
/// side to the +90° side, leaving the fixed gap at each edge.
pub open spec fn spec_brake_light(pts: Seq<Pt>, w: int) -> ThickSegment {
    let len = len_from(pts, 0);
    let d = if len < BRAKE_SETBACK {
        len
    } else {
        BRAKE_SETBACK as int
    };
    let anchor = point_along(pts, 0, d);
    let reach = if w / 2 - BRAKE_GAP > 0 {
        w / 2 - BRAKE_GAP
    } else {
        0
    };
    let off = perp(anchor.1, reach);
    ThickSegment {
        from: pt_sub(anchor.0, off),
        to: pt_add(anchor.0, off),
        thickness: BRAKE_THICKNESS,
    }
}

/// Where a label sits: a fixed setback along the body, clamped to the
/// path's end on short paths.
pub open spec fn spec_label_pos(pts: Seq<Pt>) -> Pt {
    let len = len_from(pts, 0);
    let d = if len < LABEL_SETBACK {
        len
    } else {
        LABEL_SETBACK as int
    };
    point_along(pts, 0, d).0
}

/// The label built from an optional text.
pub open spec fn spec_label(text: Option<String>, pts: Seq<Pt>) -> Option<Label> {
    match text {
        Option::None => None,
        Option::Some(s) => Some(
            Label {
                text: s,
                pos: spec_label_pos(pts),
                color: spec_label_color(),
                font_size: LABEL_FONT_SIZE,
            },
        ),
    }
}

/// The body's fill color: buses take the registered bus color, others the
/// rotating per-identity color, faded when parked.
pub open spec fn spec_body_color(
    entries: Seq<(ColorName, Color)>,
    id: CarId,
    status: CarStatus,
) -> Color {
    if id.kind == VehicleKind::Bus {
        spec_get_def(entries, ColorName::Bus, spec_bus_color())
    } else if status == CarStatus::Parked {
        spec_fade(spec_agent_color(id.idx))
    } else {
        spec_agent_color(id.idx)
    }
}

/// The registry after the body color is chosen.
pub open spec fn scheme_after_body(entries: Seq<(ColorName, Color)>, kind: VehicleKind) -> Seq<
    (ColorName, Color),
> {
    if kind == VehicleKind::Bus {
        spec_register(entries, ColorName::Bus, spec_bus_color())
    } else {
        entries
    }
}

/// The registry after the turn arrow (if any) is colored.
pub open spec fn scheme_after_arrow(
    entries: Seq<(ColorName, Color)>,
    kind: VehicleKind,
    turn: Option<TurnKind>,
) -> Seq<(ColorName, Color)> {
    if spec_has_arrow(turn) {
        spec_register(scheme_after_body(entries, kind), ColorName::TurnArrow,
            spec_turn_arrow_color())
    } else {
        scheme_after_body(entries, kind)
    }
}

/// The registry after the whole build.
pub open spec fn scheme_after_build(
    entries: Seq<(ColorName, Color)>,
    kind: VehicleKind,
    turn: Option<TurnKind>,
) -> Seq<(ColorName, Color)> {
    if turn is Some {
        spec_register(scheme_after_arrow(entries, kind, turn), ColorName::BrakeLight,
            spec_brake_light_color())
    } else {
        scheme_after_arrow(entries, kind, turn)
    }
}

/// Every corner of the ring is a point a segment primitive may take.
pub open spec fn quad_seg_ok(q: Quad) -> bool {
    pt_seg(q.a) && pt_seg(q.b) && pt_seg(q.c) && pt_seg(q.d)
}

impl CarGeometry {
    /// A built geometry: a well-formed path, a sane width, and a non-empty
    /// body of in-bounds rings.
    pub open spec fn wf(self) -> bool {
        self.path.wf() && 4 <= self.width <= WIDTH_LIMIT && 1 <= self.body@.len() && forall|k: int|
            0 <= k < self.body@.len() ==> quad_seg_ok(#[trigger] self.body@[k])
    }

    /// The identity this geometry belongs to.
    pub fn get_id(&self) -> (r: CarId)
        ensures
            r == self.id,
    {
        self.id
    }

    /// The draw-order priority: higher is drawn above.
    pub fn get_zorder(&self) -> (r: i64)
        ensures
            r == self.zorder,
    {
        self.zorder
    }

    /// The fill color a renderer should use for the body: an explicit
    /// selection or highlight override wins over the body's own color.
    pub fn draw_color(&self, override_color: Option<Color>) -> (c: Color)
        ensures
            c == match override_color {
                Option::Some(o) => o,
                Option::None => self.body_color,
            },
    {
        match override_color {
            Option::Some(o) => o,
            Option::None => self.body_color,
        }
    }
}

/// Thickness of the outline ribbon around the body, in milliunits.
pub const OUTLINE_THICKNESS: i64 = 500;

/// Containment in the union of the rings from index `i` on: a point is in
/// the body when some ring contains it by the even-odd rule.
pub open spec fn quads_contain_from(qs: Seq<Quad>, i: int, p: Pt) -> bool
    decreases qs.len() - i,
{
    if i < 0 || i >= qs.len() {
        false
    } else {
        crate::geometry::quad_contains(qs[i], p) || quads_contain_from(qs, i + 1, p)
    }
}

/// Containment of a point in a body.
pub open spec fn body_contains(qs: Seq<Quad>, p: Pt) -> bool {
    quads_contain_from(qs, 0, p)
}

/// `quads_contain_from`, on machine integers.
fn quads_contain_exec(qs: &Vec<Quad>, i: usize, p: Pt) -> (r: bool)
    requires
        i <= qs@.len(),
        forall|k: int| 0 <= k < qs@.len() ==> quad_seg_ok(#[trigger] qs@[k]),
        crate::geometry::pt_query(p),
    ensures
        r == quads_contain_from(qs@, i as int, p),
    decreases qs@.len() - i,
{
    if i >= qs.len() {
        false
    } else {
        let here = crate::geometry::quad_contains_i64(&qs[i], p);
        if here {
            true
        } else {
            quads_contain_exec(qs, i + 1, p)
        }
    }
}

/// The two ribbon rings (one per side of the body) along each segment of
/// the sub-polyline from point `i` on, each of thickness `2 * t`, centered
/// on the body's edge at the half-width `h`.
pub open spec fn side_quads_from(pts: Seq<Pt>, i: int, h: int, t: int) -> Seq<Quad>
    decreases pts.len() - i,
{
    if i + 1 >= pts.len() {
        Seq::empty()
    } else {
        let rest = side_quads_from(pts, i + 1, h, t);
        if crate::geometry::seg_len(pts[i], pts[i + 1]) > 0 {
            let n = perp(crate::geometry::spec_delta(pts[i], pts[i + 1]), h);
            seq![
                crate::geometry::quad_of_segment(pt_add(pts[i], n), pt_add(pts[i + 1], n), t),
                crate::geometry::quad_of_segment(pt_sub(pts[i], n), pt_sub(pts[i + 1], n), t),
            ] + rest
        } else {
            rest
        }
    }
}

/// The ribbon ring capping the path at the point and heading `anchor`.
pub open spec fn cap_quad(anchor: (Pt, Dir), h: int, t: int) -> Quad {
    let n = perp(anchor.1, h);
    crate::geometry::quad_of_segment(pt_add(anchor.0, n), pt_sub(anchor.0, n), t)
}

/// The outline: a ribbon of the fixed outline thickness along both sides
/// of the body and across its two ends. A degenerate (zero-length) path
/// cannot be ribboned; the filled body stands in for the outline there.
pub open spec fn outline_quads(pts: Seq<Pt>, w: int) -> Seq<Quad> {
    let len = len_from(pts, 0);
    if len == 0 {
        body_quads(pts, w)
    } else {
        side_quads_from(pts, 0, w / 2, OUTLINE_THICKNESS / 2).push(
            cap_quad(point_along(pts, 0, 0), w / 2, OUTLINE_THICKNESS / 2),
        ).push(cap_quad(point_along(pts, 0, len), w / 2, OUTLINE_THICKNESS / 2))
    }
}

/// `side_quads_from`, on machine integers, appending to `out`.
fn side_quads_push(pts: &Vec<Pt>, i: usize, h: i64, t: i64, out: &mut Vec<Quad>)
    requires
        i < pts@.len() <= MAX_POINTS,
        forall|k: int| 0 <= k < pts@.len() ==> pt_in(#[trigger] pts@[k]),
        2 <= h <= WIDTH_LIMIT,
        0 <= t <= WIDTH_LIMIT,
    ensures
        final(out)@ == old(out)@ + side_quads_from(pts@, i as int, h as int, t as int),
    decreases pts@.len() - i,
{
    if i + 1 >= pts.len() {
        assert(old(out)@ + side_quads_from(pts@, i as int, h as int, t as int) =~= old(out)@);
    } else {
        let l = crate::geometry::seg_len_i64(pts[i], pts[i + 1]);
        if l > 0 {
            let d = crate::geometry::delta(pts[i], pts[i + 1]);
            let n = perp_i64(d, h);
            let la = pt_add_i64(pts[i], n);
            let lb = pt_add_i64(pts[i + 1], n);
            let ra = pt_sub_i64(pts[i], n);
            let rb = pt_sub_i64(pts[i + 1], n);
            proof {
                assert(crate::geometry::spec_delta(la, lb) == crate::geometry::spec_delta(
                    pts@[i as int], pts@[i as int + 1]));
                assert(crate::geometry::spec_delta(ra, rb) == crate::geometry::spec_delta(
                    pts@[i as int], pts@[i as int + 1]));
            }
            out.push(crate::geometry::quad_of_segment_i64(la, lb, t));
            out.push(crate::geometry::quad_of_segment_i64(ra, rb, t));
        }
        side_quads_push(pts, i + 1, h, t, out);
        proof {
            if l > 0 {
                let n = perp(crate::geometry::spec_delta(pts@[i as int], pts@[i as int + 1]),
                    h as int);
                assert(old(out)@ + side_quads_from(pts@, i as int, h as int, t as int) =~= (old(
                    out,
                )@ + seq![
                    crate::geometry::quad_of_segment(pt_add(pts@[i as int], n), pt_add(
                        pts@[i as int + 1], n), t as int),
                    crate::geometry::quad_of_segment(pt_sub(pts@[i as int], n), pt_sub(
                        pts@[i as int + 1], n), t as int),
                ]) + side_quads_from(pts@, i as int + 1, h as int, t as int));
            }
        }
    }
}

impl CarGeometry {
    /// Whether the point is inside the filled body, by the even-odd rule
    /// on each ring.
    pub fn contains_pt(&self, p: Pt) -> (r: bool)
        requires
            self.wf(),
            crate::geometry::pt_query(p),
        ensures
            r == body_contains(self.body@, p),
    {
        quads_contain_exec(&self.body, 0, p)
    }

    /// The outline ribbon around the body, for hover and selection
    /// highlighting; the filled body itself when the path is degenerate.
    #[verifier::rlimit(60)]
    pub fn get_outline(&self) -> (r: Vec<Quad>)
        requires
            self.wf(),
        ensures
            r@ == outline_quads(self.path.pts@, self.width as int),
    {
        proof {
            lemma_len_from_bounds(self.path.pts@, 0);
        }
        let len = self.path.length();
        if len == 0 {
            let mut body: Vec<Quad> = Vec::new();
            // A zero-length path has no thick sweep: the body is the nose.
            let (cpt, cdir) = self.path.dist_along(0);
            let n1 = perp_i64(cdir, self.width / 2);
            let n2 = perp_i64(cdir, self.width / 4);
            let nose = Quad {
                a: pt_add_i64(cpt, n1),
                b: pt_sub_i64(cpt, n1),
                c: pt_sub_i64(cpt, n2),
                d: pt_add_i64(cpt, n2),
            };
            body.push(nose);
            proof {
                assert(nose == nose_quad(self.path.pts@, self.width as int));
                assert(body@ =~= body_quads(self.path.pts@, self.width as int));
            }
            body
        } else {
            let mut out: Vec<Quad> = Vec::new();
            let half = self.width / 2;
            let quarter_t = OUTLINE_THICKNESS / 2;
            side_quads_push(&self.path.pts, 0, half, quarter_t, &mut out);
            let (sp, sdir) = self.path.dist_along(0);
            let ns = perp_i64(sdir, half);
            proof {
                crate::geometry::lemma_perp_nonzero(sdir, half as int);
                crate::geometry::lemma_perp_bounds(sdir, half as int);
                lemma_cap_endpoints_distinct(sp, ns);
            }
            out.push(crate::geometry::quad_of_segment_i64(pt_add_i64(sp, ns), pt_sub_i64(sp, ns),
                quarter_t));
            let (ep, edir) = self.path.dist_along(len);
            let ne = perp_i64(edir, half);
            proof {
                crate::geometry::lemma_perp_nonzero(edir, half as int);
                crate::geometry::lemma_perp_bounds(edir, half as int);
                lemma_cap_endpoints_distinct(ep, ne);
            }
            out.push(crate::geometry::quad_of_segment_i64(pt_add_i64(ep, ne), pt_sub_i64(ep, ne),
                quarter_t));
            proof {
                assert(out@ =~= outline_quads(self.path.pts@, self.width as int));
            }
            out
        }
    }
}

/// The two ends of a cap's spine differ when the offset is nonzero, so the
/// cap's ring is a real segment sweep.
proof fn lemma_cap_endpoints_distinct(p: Pt, n: Dir)
    requires
        pt_in(p),
        -WIDTH_LIMIT <= n.dx <= WIDTH_LIMIT,
        -WIDTH_LIMIT <= n.dy <= WIDTH_LIMIT,
        !(n.dx == 0 && n.dy == 0),
    ensures
        crate::geometry::seg_len(pt_add(p, n), pt_sub(p, n)) > 0,
{
    let a = pt_add(p, n);
    let b = pt_sub(p, n);
    assert(a.x - b.x == 2 * n.dx && a.y - b.y == 2 * n.dy);
    crate::geometry::lemma_dir_len_zero(crate::geometry::spec_delta(a, b));
}

/// Builds the drawable geometry for one vehicle's pose. Fails exactly when
/// a pedestrian-only turn kind was assigned to the vehicle (an upstream
/// data-contract breach); the registry is untouched in that case.
pub fn build(pose: AgentPose, width: i64, cs: &mut ColorScheme) -> (r: Result<
    CarGeometry,
    BuildError,
>)
    requires
        pose.body.wf(),
        4 <= width <= WIDTH_LIMIT,
    ensures
        r is Err <==> spec_is_pedestrian(pose.waiting_for_turn),
        r is Err ==> final(cs).entries@ == old(cs).entries@ && r == Result::<CarGeometry,
            BuildError>::Err(BuildError::PedestrianTurnKind),
        r matches Ok(g) ==> {
            &&& g.wf()
            &&& g.id == pose.id
            &&& g.path.pts@ == pose.body.pts@
            &&& g.width == width
            &&& g.zorder == pose.zorder
            &&& g.body@ == body_quads(pose.body.pts@, width as int)
            &&& g.body_color == spec_body_color(old(cs).entries@, pose.id, pose.status)
            &&& (g.parked_icon is Some <==> pose.status == CarStatus::Parked)
            &&& g.parked_icon == (if pose.status == CarStatus::Parked {
                Some(body_center(body_quads(pose.body.pts@, width as int)))
            } else {
                Option::<Pt>::None
            })
            &&& (g.turn_arrow is Some <==> spec_has_arrow(pose.waiting_for_turn))
            &&& (g.turn_arrow matches Some(ac) ==> spec_turn_arrow(pose.body.pts@, width as int,
                pose.waiting_for_turn) == Some(ac.0) && ac.1 == spec_get_def(
                scheme_after_body(old(cs).entries@, pose.id.kind), ColorName::TurnArrow,
                spec_turn_arrow_color()))
            &&& (g.brake_light is Some <==> pose.waiting_for_turn is Some)
            &&& (g.brake_light matches Some(bc) ==> bc.0 == spec_brake_light(pose.body.pts@,
                width as int) && bc.1 == spec_get_def(scheme_after_arrow(old(cs).entries@,
                pose.id.kind, pose.waiting_for_turn), ColorName::BrakeLight,
                spec_brake_light_color()))
            &&& g.label == spec_label(pose.label, pose.body.pts@)
            &&& final(cs).entries@ == scheme_after_build(old(cs).entries@, pose.id.kind,
                pose.waiting_for_turn)
        },
{
    let turn = pose.waiting_for_turn;
    match turn {
        Option::Some(TurnKind::Crosswalk) | Option::Some(TurnKind::SharedSidewalkCorner) => {
            return Result::Err(BuildError::PedestrianTurnKind);
        },
        _ => {},
    }

    let len = pose.body.length();
    let half = width / 2;
    proof {
        lemma_len_from_bounds(pose.body.pts@, 0);
    }

    // The body: thick sweep up to the nose, then the nose ring.
    let mut body: Vec<Quad> = Vec::new();
    if len - NOSE_LENGTH > 0 {
        let mut sliced: Vec<Pt> = Vec::new();
        slice_upto_push(&pose.body.pts, 0, len - NOSE_LENGTH, &mut sliced);
        proof {
            lemma_slice_upto_in(pose.body.pts@, 0, len - NOSE_LENGTH as int);
            assert(sliced@ =~= slice_upto(pose.body.pts@, 0, len - NOSE_LENGTH as int));
        }
        thick_quads_push(&sliced, 0, half, &mut body);
        proof {
            assert(body@ =~= thick_quads_from(slice_upto(pose.body.pts@, 0, spec_front(
                pose.body.pts@)), 0, width as int / 2));
        }
    }
    let front = if len - NOSE_LENGTH > 0 {
        len - NOSE_LENGTH
    } else {
        0
    };
    let (cpt, cdir) = pose.body.dist_along(front);
    let (tpt, tdir) = pose.body.dist_along(len);
    let n1 = perp_i64(cdir, half);
    let n2 = perp_i64(tdir, width / 4);
    let nose = Quad {
        a: pt_add_i64(cpt, n1),
        b: pt_sub_i64(cpt, n1),
        c: pt_sub_i64(tpt, n2),
        d: pt_add_i64(tpt, n2),
    };
    body.push(nose);
    proof {
        assert(nose == nose_quad(pose.body.pts@, width as int));
        assert(body@ =~= body_quads(pose.body.pts@, width as int));
        lemma_body_quads_seg_ok(pose.body.pts@, width as int);
    }

    // Colors and decorations.
    let body_color = if pose.id.kind == VehicleKind::Bus {
        cs.get_def(ColorName::Bus, Color { r: 50, g: 133, b: 117, a: 255 })
    } else if pose.status == CarStatus::Parked {
        fade(agent_color(pose.id.idx))
    } else {
        agent_color(pose.id.idx)
    };

    let parked_icon = if pose.status == CarStatus::Parked {
        Option::Some(body_center_exec(&body))
    } else {
        Option::None
    };

    let turn_arrow = match turn {
        Option::Some(TurnKind::Left) | Option::Some(TurnKind::LaneChangeLeft) => {
            let anchor_d = if len - ARROW_SETBACK > 0 {
                len - ARROW_SETBACK
            } else {
                0
            };
            let (p, dir) = pose.body.dist_along(anchor_d);
            let off = perp_i64(dir, width * 2 / 5);
            let color = cs.get_def(ColorName::TurnArrow, Color { r: 223, g: 140, b: 61, a: 255 });
            Option::Some(
                (
                    ThickSegment {
                        from: pt_add_i64(p, off),
                        to: pt_sub_i64(p, off),
                        thickness: ARROW_THICKNESS,
                    },
                    color,
                ),
            )
        },
        Option::Some(TurnKind::Right) | Option::Some(TurnKind::LaneChangeRight) => {
            let anchor_d = if len - ARROW_SETBACK > 0 {
                len - ARROW_SETBACK
            } else {
                0
            };
            let (p, dir) = pose.body.dist_along(anchor_d);
            let off = perp_i64(dir, width * 2 / 5);
            let color = cs.get_def(ColorName::TurnArrow, Color { r: 223, g: 140, b: 61, a: 255 });
            Option::Some(
                (
                    ThickSegment {
                        from: pt_sub_i64(p, off),
                        to: pt_add_i64(p, off),
                        thickness: ARROW_THICKNESS,
                    },
                    color,
                ),
            )
        },
        _ => Option::None,
    };

    let brake_light = if turn.is_some() {
        let anchor_d = if len < BRAKE_SETBACK {
            len
        } else {
            BRAKE_SETBACK
        };
        let (p, dir) = pose.body.dist_along(anchor_d);
        let reach = if half - BRAKE_GAP > 0 {
            half - BRAKE_GAP
        } else {
            0
        };
        let off = perp_i64(dir, reach);
        let color = cs.get_def(ColorName::BrakeLight, Color { r: 255, g: 19, b: 0, a: 255 });
        Option::Some(
            (
                ThickSegment {
                    from: pt_sub_i64(p, off),
                    to: pt_add_i64(p, off),
                    thickness: BRAKE_THICKNESS,
                },
                color,
            ),
        )
    } else {
        Option::None
    };

    let label = match pose.label {
        Option::None => Option::None,
        Option::Some(s) => {
            let label_d = if len < LABEL_SETBACK {
                len
            } else {
                LABEL_SETBACK
            };
            let (p, _dir) = pose.body.dist_along(label_d);
            Option::Some(
                Label {
                    text: s,
                    pos: p,
                    color: Color { r: 249, g: 206, b: 24, a: 255 },
                    font_size: LABEL_FONT_SIZE,
                },
            )
        },
    };

    Result::Ok(
        CarGeometry {
            id: pose.id,
            path: pose.body,
            width,
            zorder: pose.zorder,
            body,
            body_color,
            parked_icon,
            turn_arrow,
            brake_light,
            label,
        },
    )
}

/// Every ring the body construction produces has in-bounds corners.
pub proof fn lemma_body_quads_seg_ok(pts: Seq<Pt>, w: int)
    requires
        1 <= pts.len() <= MAX_POINTS,
        forall|i: int| 0 <= i < pts.len() ==> pt_in(#[trigger] pts[i]),
        4 <= w <= WIDTH_LIMIT,
    ensures
        1 <= body_quads(pts, w).len() <= MAX_POINTS + 2,
        forall|k: int| 0 <= k < body_quads(pts, w).len() ==> quad_seg_ok(
            #[trigger] body_quads(pts, w)[k]),
{
    let front = spec_front(pts);
    lemma_len_from_bounds(pts, 0);
    if front > 0 {
        lemma_slice_upto_in(pts, 0, front);
        lemma_thick_quads_seg_ok(slice_upto(pts, 0, front), 0, w / 2);
        crate::path::lemma_thick_quads_len(slice_upto(pts, 0, front), 0, w / 2);
    }
    lemma_nose_quad_seg_ok(pts, w);
    let qs = body_quads(pts, w);
    assert forall|k: int| 0 <= k < qs.len() implies quad_seg_ok(#[trigger] qs[k]) by {
        if k < qs.len() - 1 {
            assert(qs[k] == thick_quads_from(slice_upto(pts, 0, front), 0, w / 2)[k]);
        } else {
            assert(qs[k] == nose_quad(pts, w));
        }
    }
}

/// Corners of the nose ring are in bounds.
proof fn lemma_nose_quad_seg_ok(pts: Seq<Pt>, w: int)
    requires
        1 <= pts.len(),
        forall|i: int| 0 <= i < pts.len() ==> pt_in(#[trigger] pts[i]),
        4 <= w <= WIDTH_LIMIT,
    ensures
        quad_seg_ok(nose_quad(pts, w)),
{
    let len = len_from(pts, 0);
    let front = spec_front(pts);
    lemma_len_from_bounds(pts, 0);
    lemma_point_along_in(pts, 0, front);
    lemma_point_along_in(pts, 0, len);
    let corner = point_along(pts, 0, front);
    let tip = point_along(pts, 0, len);
    crate::geometry::lemma_perp_bounds(corner.1, w / 2);
    crate::geometry::lemma_perp_bounds(tip.1, w / 4);
}

/// Corners of every thick-sweep ring of in-bounds points are in bounds.
proof fn lemma_thick_quads_seg_ok(pts: Seq<Pt>, i: int, h: int)
    requires
        forall|k: int| 0 <= k < pts.len() ==> pt_in(#[trigger] pts[k]),
        0 <= i,
        0 <= h <= WIDTH_LIMIT,
    ensures
        forall|k: int| 0 <= k < thick_quads_from(pts, i, h).len() ==> quad_seg_ok(
            #[trigger] thick_quads_from(pts, i, h)[k]),
    decreases pts.len() - i,
{
    if i + 1 >= pts.len() {
    } else {
        lemma_thick_quads_seg_ok(pts, i + 1, h);
        let rest = thick_quads_from(pts, i + 1, h);
        if crate::geometry::seg_len(pts[i], pts[i + 1]) > 0 {
            crate::geometry::lemma_perp_bounds(crate::geometry::spec_delta(pts[i], pts[i + 1]), h);
            let q = crate::geometry::quad_of_segment(pts[i], pts[i + 1], h);
            assert(quad_seg_ok(q));
            let qs = thick_quads_from(pts, i, h);
            assert(qs =~= seq![q] + rest);
            assert forall|k: int| 0 <= k < qs.len() implies quad_seg_ok(#[trigger] qs[k]) by {
                if k == 0 {
                    assert(qs[k] == q);
                } else {
                    assert(qs[k] == rest[k - 1]);
                }
            }
        }
    }
}

/// The point `point_along` reports is in bounds, and its heading is a
/// usable (non-degenerate, bounded) displacement.
pub proof fn lemma_point_along_in(pts: Seq<Pt>, i: int, d: int)
    requires
        forall|k: int| 0 <= k < pts.len() ==> pt_in(#[trigger] pts[k]),
        0 <= i < pts.len(),
        0 <= d,
    ensures
        pt_in(point_along(pts, i, d).0),
        dir_seg(point_along(pts, i, d).1),
        dir_len(point_along(pts, i, d).1) > 0,
    decreases pts.len() - i,
{
    if i + 1 >= pts.len() {
        assert(1000 * 1000 <= 1_000_000 < (1000 + 1) * (1000 + 1)) by (nonlinear_arith);
        crate::num::lemma_sqrt_floor_unique(1_000_000nat, 1000nat);
    } else {
        let l = crate::geometry::seg_len(pts[i], pts[i + 1]);
        crate::path::lemma_seg_len_in_bounds(pts[i], pts[i + 1]);
        if l > 0 && d <= l {
            crate::path::lemma_interp_in(pts[i], pts[i + 1], d, l);
        } else if l == 0 {
            lemma_point_along_in(pts, i + 1, d);
        } else {
            lemma_point_along_in(pts, i + 1, d - l);
        }
    }
}

/// `body_center`, on machine integers.
fn body_center_exec(qs: &Vec<Quad>) -> (r: Pt)
    requires
        1 <= qs@.len() <= 2 * MAX_POINTS,
        forall|k: int| 0 <= k < qs@.len() ==> quad_seg_ok(#[trigger] qs@[k]),
    ensures
        r == body_center(qs@),
{
    proof {
        lemma_corner_sums_bounds(qs@, 0);
    }
    let sums = corner_sums_exec(qs, 0);
    let count: i64 = 4 * (qs.len() as i64);
    let x = crate::num::mul_div_i64(sums.0, 1, count);
    let y = crate::num::mul_div_i64(sums.1, 1, count);
    Pt { x, y }
}

/// Corner sums are bounded by the corner bound times the corner count.
proof fn lemma_corner_sums_bounds(qs: Seq<Quad>, i: int)
    requires
        forall|k: int| 0 <= k < qs.len() ==> quad_seg_ok(#[trigger] qs[k]),
        0 <= i <= qs.len(),
    ensures
        -(4_400_000_000 * (qs.len() - i)) <= corner_sums_from(qs, i).0 <= 4_400_000_000 * (
        qs.len() - i),
        -(4_400_000_000 * (qs.len() - i)) <= corner_sums_from(qs, i).1 <= 4_400_000_000 * (
        qs.len() - i),
    decreases qs.len() - i,
{
    if i >= qs.len() {
        assert(4_400_000_000 * (qs.len() - i) == 0) by (nonlinear_arith)
            requires
                i == qs.len(),
        ;
    } else {
        lemma_corner_sums_bounds(qs, i + 1);
        assert(4_400_000_000 * (qs.len() - i) == 4_400_000_000 + 4_400_000_000 * (qs.len() - (i
            + 1))) by (nonlinear_arith);
    }
}

/// `corner_sums_from`, on machine integers.
fn corner_sums_exec(qs: &Vec<Quad>, i: usize) -> (r: (i64, i64))
    requires
        i <= qs@.len() <= 2 * MAX_POINTS,
        forall|k: int| 0 <= k < qs@.len() ==> quad_seg_ok(#[trigger] qs@[k]),
    ensures
        r.0 == corner_sums_from(qs@, i as int).0,
        r.1 == corner_sums_from(qs@, i as int).1,
    decreases qs@.len() - i,
{
    proof {
        lemma_corner_sums_bounds(qs@, i as int);
        if i < qs@.len() {
            lemma_corner_sums_bounds(qs@, i as int + 1);
            assert(4_400_000_000 * (qs@.len() - (i + 1)) <= 4_400_000_000 * (2 * MAX_POINTS))
                by (nonlinear_arith)
                requires
                    0 <= qs@.len() - (i + 1) <= 2 * MAX_POINTS,
            ;
        }
    }
    if i >= qs.len() {
        (0, 0)
    } else {
        let rest = corner_sums_exec(qs, i + 1);
        let q = &qs[i];
        (q.a.x + q.b.x + q.c.x + q.d.x + rest.0, q.a.y + q.b.y + q.c.y + q.d.y + rest.1)
    }
}

} // verus!
