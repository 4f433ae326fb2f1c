use car_sprite::color::{Color, ColorName, ColorScheme};
use car_sprite::geometry::{Pt, Quad};
use car_sprite::path::Path;
use car_sprite::sprite::{build, AgentPose, BuildError, CarId, CarStatus, ThickSegment, TurnKind,
    VehicleKind};

fn straight_path() -> Path {
    // 10 length-units along +x, in milliunits.
    Path { pts: vec![Pt { x: 0, y: 0 }, Pt { x: 10_000, y: 0 }] }
}

fn pose(status: CarStatus, turn: Option<TurnKind>) -> AgentPose {
    AgentPose {
        id: CarId { idx: 42, kind: VehicleKind::Car },
        body: straight_path(),
        status,
        waiting_for_turn: turn,
        label: None,
        zorder: 3,
    }
}

fn moving_color_42() -> Color {
    // 42 % 5 == 2: the third palette entry.
    Color { r: 0, g: 160, b: 0, a: 255 }
}

#[test]
fn straight_moving_body_is_rectangle_and_nose() {
    let mut cs = ColorScheme::new();
    let g = build(pose(CarStatus::Moving, None), 1750, &mut cs).unwrap();
    assert_eq!(g.body.len(), 2);
    let rect = g.body[0];
    assert_eq!(rect.a, Pt { x: 0, y: 875 });
    assert_eq!(rect.b, Pt { x: 9000, y: 875 });
    assert_eq!(rect.c, Pt { x: 9000, y: -875 });
    assert_eq!(rect.d, Pt { x: 0, y: -875 });
    let nose = g.body[1];
    assert_eq!(nose.a, Pt { x: 9000, y: 875 });
    assert_eq!(nose.b, Pt { x: 9000, y: -875 });
    assert_eq!(nose.c, Pt { x: 10_000, y: -437 });
    assert_eq!(nose.d, Pt { x: 10_000, y: 437 });
}

fn shoelace2(q: &Quad) -> i64 {
    (q.a.x * q.b.y - q.b.x * q.a.y) + (q.b.x * q.c.y - q.c.x * q.b.y)
        + (q.c.x * q.d.y - q.d.x * q.c.y) + (q.d.x * q.a.y - q.a.x * q.d.y)
}

#[test]
fn swept_ring_area_covers_width_by_remaining_length() {
    let mut cs = ColorScheme::new();
    let g = build(pose(CarStatus::Moving, None), 1750, &mut cs).unwrap();
    // The swept ring alone has the full area of a width-wide rectangle over
    // everything but the one-unit nose.
    let area2 = shoelace2(&g.body[0]).abs();
    assert_eq!(area2, 2 * 1750 * (10_000 - 1000));
}

#[test]
fn diagonal_path_sweeps_one_ring_per_segment() {
    let mut cs = ColorScheme::new();
    let mut p = pose(CarStatus::Moving, None);
    // Two segments: a 3-4-5 diagonal and a vertical tail.
    p.body = Path {
        pts: vec![Pt { x: 0, y: 0 }, Pt { x: 3000, y: 4000 }, Pt { x: 3000, y: 9000 }],
    };
    let g = build(p, 1750, &mut cs).unwrap();
    // Two swept rings plus the nose.
    assert_eq!(g.body.len(), 3);
    // A point on the first segment's middle is inside the body.
    assert!(g.contains_pt(Pt { x: 1500, y: 2000 }));
    assert!(!g.contains_pt(Pt { x: 6000, y: 2000 }));
}

#[test]
fn straight_moving_no_decorations() {
    let mut cs = ColorScheme::new();
    let g = build(pose(CarStatus::Moving, None), 1750, &mut cs).unwrap();
    assert!(g.parked_icon.is_none());
    assert!(g.turn_arrow.is_none());
    assert!(g.brake_light.is_none());
    assert!(g.label.is_none());
    assert_eq!(g.body_color, moving_color_42());
    assert_eq!(g.zorder, 3);
    assert_eq!(g.id, CarId { idx: 42, kind: VehicleKind::Car });
    // No named color was needed.
    assert!(cs.entries.is_empty());
}

#[test]
fn parked_adds_one_centered_icon_and_fades() {
    let mut cs = ColorScheme::new();
    let moving = build(pose(CarStatus::Moving, None), 1750, &mut cs).unwrap();
    let parked = build(pose(CarStatus::Parked, None), 1750, &mut cs).unwrap();
    // Same body polygon.
    assert_eq!(moving.body, parked.body);
    // Exactly one icon overlay, centered on the body's corners.
    assert_eq!(parked.parked_icon, Some(Pt { x: 7000, y: 0 }));
    // The parked color is the moving color of the same identity, faded by
    // 3/2: each channel multiplied by 2/3.
    assert_eq!(parked.body_color, Color { r: 0, g: 106, b: 0, a: 255 });
    assert_eq!(parked.body_color.r as u16, moving.body_color.r as u16 * 2 / 3);
    assert_eq!(parked.body_color.g as u16, moving.body_color.g as u16 * 2 / 3);
    assert_eq!(parked.body_color.b as u16, moving.body_color.b as u16 * 2 / 3);
    assert_eq!(parked.body_color.a, moving.body_color.a);
}

#[test]
fn left_turn_arrow_points_left_and_brake_light_shows() {
    let mut cs = ColorScheme::new();
    let g = build(pose(CarStatus::Moving, Some(TurnKind::Left)), 1750, &mut cs).unwrap();
    // One arrow near the nose, pointing from the +90° side to the −90° side.
    let (arrow, arrow_color) = g.turn_arrow.unwrap();
    assert_eq!(
        arrow,
        ThickSegment { from: Pt { x: 7500, y: 700 }, to: Pt { x: 7500, y: -700 }, thickness: 500 }
    );
    assert_eq!(arrow_color, Color { r: 223, g: 140, b: 61, a: 255 });
    // One brake light near the tail.
    let (brake, brake_color) = g.brake_light.unwrap();
    assert_eq!(
        brake,
        ThickSegment { from: Pt { x: 500, y: -675 }, to: Pt { x: 500, y: 675 }, thickness: 300 }
    );
    assert_eq!(brake_color, Color { r: 255, g: 19, b: 0, a: 255 });
    // Both colors were registered.
    assert_eq!(cs.entries.len(), 2);
    assert_eq!(cs.entries[0].0, ColorName::TurnArrow);
    assert_eq!(cs.entries[1].0, ColorName::BrakeLight);
}

#[test]
fn right_turn_arrow_is_mirrored() {
    let mut cs = ColorScheme::new();
    let g = build(pose(CarStatus::Moving, Some(TurnKind::Right)), 1750, &mut cs).unwrap();
    let (arrow, _) = g.turn_arrow.unwrap();
    assert_eq!(arrow.from, Pt { x: 7500, y: -700 });
    assert_eq!(arrow.to, Pt { x: 7500, y: 700 });
}

#[test]
fn lane_changes_get_arrows_too() {
    let mut cs = ColorScheme::new();
    let l = build(pose(CarStatus::Moving, Some(TurnKind::LaneChangeLeft)), 1750, &mut cs).unwrap();
    let r = build(pose(CarStatus::Moving, Some(TurnKind::LaneChangeRight)), 1750, &mut cs)
        .unwrap();
    assert!(l.turn_arrow.is_some());
    assert!(r.turn_arrow.is_some());
    assert_eq!(l.turn_arrow.unwrap().0.from, Pt { x: 7500, y: 700 });
    assert_eq!(r.turn_arrow.unwrap().0.from, Pt { x: 7500, y: -700 });
}

#[test]
fn straight_turn_has_brake_light_but_no_arrow() {
    let mut cs = ColorScheme::new();
    let g = build(pose(CarStatus::Moving, Some(TurnKind::Straight)), 1750, &mut cs).unwrap();
    assert!(g.turn_arrow.is_none());
    assert!(g.brake_light.is_some());
    // Only the brake light color was registered.
    assert_eq!(cs.entries.len(), 1);
    assert_eq!(cs.entries[0].0, ColorName::BrakeLight);
}

#[test]
fn pedestrian_turn_kinds_fail_fast() {
    let mut cs = ColorScheme::new();
    let crosswalk = build(pose(CarStatus::Moving, Some(TurnKind::Crosswalk)), 1750, &mut cs);
    assert_eq!(crosswalk.err(), Some(BuildError::PedestrianTurnKind));
    let corner = build(
        pose(CarStatus::Moving, Some(TurnKind::SharedSidewalkCorner)),
        1750,
        &mut cs,
    );
    assert_eq!(corner.err(), Some(BuildError::PedestrianTurnKind));
    // The registry is untouched on failure.
    assert!(cs.entries.is_empty());
}

#[test]
fn zero_length_path_builds_nose_only() {
    let mut cs = ColorScheme::new();
    let mut p = pose(CarStatus::Moving, None);
    p.body = Path { pts: vec![Pt { x: 5000, y: 5000 }] };
    let g = build(p, 1750, &mut cs).unwrap();
    assert_eq!(g.body.len(), 1);
    // The degenerate nose collapses onto the single point, offset only
    // sideways by the default +x heading.
    let nose = g.body[0];
    assert_eq!(nose.a, Pt { x: 5000, y: 5875 });
    assert_eq!(nose.b, Pt { x: 5000, y: 4125 });
    assert_eq!(nose.c, Pt { x: 5000, y: 4563 });
    assert_eq!(nose.d, Pt { x: 5000, y: 5437 });
}

#[test]
fn short_path_clamps_the_slice() {
    let mut cs = ColorScheme::new();
    let mut p = pose(CarStatus::Moving, None);
    // Half a unit long: shorter than the nose.
    p.body = Path { pts: vec![Pt { x: 0, y: 0 }, Pt { x: 500, y: 0 }] };
    let g = build(p, 1750, &mut cs).unwrap();
    assert_eq!(g.body.len(), 1);
}

#[test]
fn bus_color_is_registered_and_first_definition_wins() {
    let mut cs = ColorScheme::new();
    let mut p = pose(CarStatus::Moving, None);
    p.id = CarId { idx: 7, kind: VehicleKind::Bus };
    let g = build(p, 1750, &mut cs).unwrap();
    assert_eq!(g.body_color, Color { r: 50, g: 133, b: 117, a: 255 });
    assert_eq!(cs.entries.len(), 1);
    assert_eq!(cs.entries[0], (ColorName::Bus, Color { r: 50, g: 133, b: 117, a: 255 }));

    // A color registered beforehand wins over the builder's default.
    let mut cs2 = ColorScheme::new();
    let custom = Color { r: 1, g: 2, b: 3, a: 255 };
    assert_eq!(cs2.get_def(ColorName::Bus, custom), custom);
    let mut p2 = pose(CarStatus::Moving, None);
    p2.id = CarId { idx: 7, kind: VehicleKind::Bus };
    let g2 = build(p2, 1750, &mut cs2).unwrap();
    assert_eq!(g2.body_color, custom);
    assert_eq!(cs2.entries.len(), 1);
}

#[test]
fn label_is_placed_nine_units_along() {
    let mut cs = ColorScheme::new();
    let mut p = pose(CarStatus::Moving, None);
    p.label = Some("42".to_string());
    let g = build(p, 1750, &mut cs).unwrap();
    let label = g.label.unwrap();
    assert_eq!(label.text, "42");
    assert_eq!(label.pos, Pt { x: 9000, y: 0 });
    assert_eq!(label.color, Color { r: 249, g: 206, b: 24, a: 255 });
    assert_eq!(label.font_size, 20);
}

#[test]
fn hit_test_inside_and_outside() {
    let mut cs = ColorScheme::new();
    let g = build(pose(CarStatus::Moving, None), 1750, &mut cs).unwrap();
    assert!(g.contains_pt(Pt { x: 5000, y: 0 }));
    assert!(g.contains_pt(Pt { x: 5000, y: 800 }));
    assert!(!g.contains_pt(Pt { x: 5000, y: 2000 }));
    // Inside the nose taper.
    assert!(g.contains_pt(Pt { x: 9500, y: 0 }));
    // Past the tip.
    assert!(!g.contains_pt(Pt { x: 10_500, y: 0 }));
    // Behind the tail.
    assert!(!g.contains_pt(Pt { x: -500, y: 0 }));
}

#[test]
fn outline_ribbons_both_sides_and_caps() {
    let mut cs = ColorScheme::new();
    let g = build(pose(CarStatus::Moving, None), 1750, &mut cs).unwrap();
    let outline = g.get_outline();
    // One segment: a ribbon per side, plus the two end caps.
    assert_eq!(outline.len(), 4);
    let left = outline[0];
    assert_eq!(left.a, Pt { x: 0, y: 1125 });
    assert_eq!(left.b, Pt { x: 10_000, y: 1125 });
    assert_eq!(left.c, Pt { x: 10_000, y: 625 });
    assert_eq!(left.d, Pt { x: 0, y: 625 });
    let right = outline[1];
    assert_eq!(right.a, Pt { x: 0, y: -625 });
    assert_eq!(right.d, Pt { x: 0, y: -1125 });
}

#[test]
fn outline_of_degenerate_path_falls_back_to_body() {
    let mut cs = ColorScheme::new();
    let mut p = pose(CarStatus::Moving, None);
    p.body = Path { pts: vec![Pt { x: 0, y: 0 }] };
    let g = build(p, 1750, &mut cs).unwrap();
    let outline: Vec<Quad> = g.get_outline();
    assert_eq!(outline, g.body);
}

#[test]
fn selection_override_beats_body_color() {
    let mut cs = ColorScheme::new();
    let g = build(pose(CarStatus::Moving, None), 1750, &mut cs).unwrap();
    let highlight = Color { r: 255, g: 255, b: 255, a: 255 };
    assert_eq!(g.draw_color(Some(highlight)), highlight);
    assert_eq!(g.draw_color(None), g.body_color);
}

#[test]
fn getters_pass_identity_and_zorder_through() {
    let mut cs = ColorScheme::new();
    let g = build(pose(CarStatus::Parked, None), 1750, &mut cs).unwrap();
    assert_eq!(g.get_id(), CarId { idx: 42, kind: VehicleKind::Car });
    assert_eq!(g.get_zorder(), 3);
}
