use car_sprite::abtest::ABTestMode;
use car_sprite::color::{agent_color, fade, Color, ColorName, ColorScheme};
use car_sprite::cutscene::{CutsceneAction, CutsceneBuilder, Transition};
use car_sprite::geometry::{seg_len_i64, Pt};
use car_sprite::num::{isqrt, mul_div_i64};
use car_sprite::path::Path;

#[test]
fn isqrt_exact_and_between() {
    assert_eq!(isqrt(0), 0);
    assert_eq!(isqrt(1), 1);
    assert_eq!(isqrt(2), 1);
    assert_eq!(isqrt(3), 1);
    assert_eq!(isqrt(4), 2);
    assert_eq!(isqrt(999_999), 999);
    assert_eq!(isqrt(1_000_000), 1000);
    assert_eq!(isqrt(u64::MAX), 4_294_967_295);
}

#[test]
fn mul_div_truncates_toward_zero() {
    assert_eq!(mul_div_i64(7, 2, 3), 4);
    assert_eq!(mul_div_i64(-7, 2, 3), -4);
    assert_eq!(mul_div_i64(0, 5, 9), 0);
}

#[test]
fn segment_length_is_floor_of_euclidean() {
    // A 3-4-5 triangle, scaled to milliunits.
    assert_eq!(seg_len_i64(Pt { x: 0, y: 0 }, Pt { x: 3000, y: 4000 }), 5000);
    // A unit diagonal: sqrt(2) floors to 1414 at this scale.
    assert_eq!(seg_len_i64(Pt { x: 0, y: 0 }, Pt { x: 1000, y: 1000 }), 1414);
    assert_eq!(seg_len_i64(Pt { x: 2, y: 2 }, Pt { x: 2, y: 2 }), 0);
}

#[test]
fn path_length_sums_segments() {
    let p = Path {
        pts: vec![Pt { x: 0, y: 0 }, Pt { x: 3000, y: 4000 }, Pt { x: 3000, y: 5000 }],
    };
    assert_eq!(p.length(), 6000);
}

#[test]
fn dist_along_interpolates() {
    let p = Path { pts: vec![Pt { x: 0, y: 0 }, Pt { x: 10_000, y: 0 }] };
    let (pt, dir) = p.dist_along(2500);
    assert_eq!(pt, Pt { x: 2500, y: 0 });
    assert_eq!(dir.dx, 10_000);
    assert_eq!(dir.dy, 0);
}

#[test]
fn palette_rotates_by_identity() {
    assert_eq!(agent_color(0), agent_color(5));
    assert_eq!(agent_color(42), Color { r: 0, g: 160, b: 0, a: 255 });
    assert_ne!(agent_color(0), agent_color(1));
}

#[test]
fn fade_divides_channels_and_keeps_alpha() {
    let faded = fade(Color { r: 255, g: 19, b: 0, a: 200 });
    assert_eq!(faded, Color { r: 170, g: 12, b: 0, a: 200 });
}

#[test]
fn registry_keeps_first_definition() {
    let mut cs = ColorScheme::new();
    let first = Color { r: 10, g: 20, b: 30, a: 255 };
    let second = Color { r: 40, g: 50, b: 60, a: 255 };
    assert_eq!(cs.get_def(ColorName::TurnArrow, first), first);
    assert_eq!(cs.get_def(ColorName::TurnArrow, second), first);
    assert_eq!(cs.entries.len(), 1);
    // Another name is independent.
    assert_eq!(cs.get_def(ColorName::Bus, second), second);
    assert_eq!(cs.entries.len(), 2);
}

#[test]
fn abtest_mode_constructs() {
    let _mode = ABTestMode::new();
}

#[test]
fn cutscene_builder_collects_scenes_in_order() {
    let player = CutsceneBuilder::new("intro".to_string())
        .player("hello".to_string())
        .boss("welcome".to_string())
        .extra("mayor".to_string(), "hi".to_string())
        .build();
    assert_eq!(player.name, "intro");
    assert_eq!(player.scenes.len(), 3);
    assert_eq!(player.scenes[0].msg, "hello");
    assert_eq!(player.scenes[1].msg, "welcome");
    assert_eq!(player.scenes[2].msg, "hi");
    assert_eq!(player.idx, 0);
}

#[test]
fn cutscene_navigation_steps_and_pops() {
    let mut player = CutsceneBuilder::new("intro".to_string())
        .player("one".to_string())
        .boss("two".to_string())
        .build();
    assert_eq!(player.event(CutsceneAction::Next), Transition::Keep);
    assert_eq!(player.idx, 1);
    assert_eq!(player.event(CutsceneAction::Back), Transition::Keep);
    assert_eq!(player.idx, 0);
    assert_eq!(player.event(CutsceneAction::Skip), Transition::Keep);
    assert_eq!(player.idx, 2);
    assert_eq!(player.event(CutsceneAction::Start), Transition::Pop);
    assert_eq!(player.event(CutsceneAction::Quit), Transition::Pop);
}
