use pong::config::Config;
use pong::geometry::{aabb_overlap, bounds, contains, overlaps};
use pong::math::{clamp, half_i64, isqrt, mul_sign, trunc_div_i128};
use pong::types::{Body, Color, Vec2};

fn test_config() -> Config {
    Config {
        physics_frames: 60,
        arena_size: Vec2 { x: 900, y: 700 },
        paddle_size: Vec2 { x: 5, y: 100 },
        paddle_padding: 100,
        paddle_color: Color { r: 255, g: 255, b: 255 },
        ball_color: Color { r: 255, g: 0, b: 0 },
        ball_size: Vec2 { x: 20, y: 20 },
        initial_ball_speed: Vec2 { x: -10, y: 0 },
        ai_paddle_speed: 5,
        angle_aggressiveness: 2,
        wall_thickness: 5,
    }
}

fn body_at(x: i64, y: i64, w: i64, h: i64) -> Body {
    Body { pos: Vec2 { x, y }, layer: 1, scale: Vec2 { x: w, y: h } }
}

#[test]
fn contains_is_inclusive() {
    assert!(contains(0, 10, 0));
    assert!(contains(0, 10, 10));
    assert!(contains(0, 10, 5));
    assert!(!contains(0, 10, 11));
    assert!(!contains(0, 10, -1));
}

#[test]
fn overlaps_symmetric_concrete() {
    assert_eq!(overlaps(0, 10, 5, 20), overlaps(5, 20, 0, 10));
    assert_eq!(overlaps(0, 10, 15, 20), overlaps(15, 20, 0, 10));
    assert_eq!(overlaps(0, 30, 10, 20), overlaps(10, 20, 0, 30));
    assert!(overlaps(0, 30, 10, 20));
    assert!(!overlaps(0, 10, 15, 20));
}

#[test]
fn edge_touching_counts_as_overlap() {
    // intervals sharing exactly one boundary coordinate
    assert!(overlaps(0, 10, 10, 20));
    assert!(overlaps(10, 20, 0, 10));
    // bodies whose boxes touch at a max == b min
    let a = body_at(0, 0, 20, 20);
    let b = body_at(20, 0, 20, 20);
    assert!(aabb_overlap(&a, &b));
    assert!(aabb_overlap(&b, &a));
}

#[test]
fn aabb_overlap_symmetric_concrete() {
    let a = body_at(0, 0, 20, 20);
    let b = body_at(5, 5, 10, 10);
    let c = body_at(100, 100, 10, 10);
    assert_eq!(aabb_overlap(&a, &b), aabb_overlap(&b, &a));
    assert!(aabb_overlap(&a, &b));
    assert_eq!(aabb_overlap(&a, &c), aabb_overlap(&c, &a));
    assert!(!aabb_overlap(&a, &c));
}

#[test]
fn separated_axis_means_no_overlap() {
    // x-intervals overlap but y-intervals do not
    let a = body_at(0, 0, 20, 20);
    let b = body_at(0, 50, 20, 20);
    assert!(!aabb_overlap(&a, &b));
}

#[test]
fn bounds_from_center_and_extents() {
    let b = body_at(0, 0, 20, 20);
    assert_eq!(bounds(&b), (-10, 10, -10, 10));
    let c = body_at(5, -3, 10, 4);
    assert_eq!(bounds(&c), (0, 10, -5, -1));
}

#[test]
fn isqrt_small_values() {
    assert_eq!(isqrt(0), 0);
    assert_eq!(isqrt(1), 1);
    assert_eq!(isqrt(2), 1);
    assert_eq!(isqrt(3), 1);
    assert_eq!(isqrt(4), 2);
    assert_eq!(isqrt(99), 9);
    assert_eq!(isqrt(100), 10);
    assert_eq!(isqrt(104), 10);
}

#[test]
fn clamp_and_halving() {
    assert_eq!(clamp(5, 0, 10), 5);
    assert_eq!(clamp(-5, 0, 10), 0);
    assert_eq!(clamp(15, 0, 10), 10);
    assert_eq!(half_i64(100), 50);
    assert_eq!(half_i64(5), 2);
}

#[test]
fn trunc_div_rounds_toward_zero() {
    assert_eq!(trunc_div_i128(200, 100), 2);
    assert_eq!(trunc_div_i128(-200, 100), -2);
    assert_eq!(trunc_div_i128(199, 100), 1);
    assert_eq!(trunc_div_i128(-199, 100), -1);
}

#[test]
fn mul_sign_flips_and_keeps() {
    assert_eq!(mul_sign(7, 1), 7);
    assert_eq!(mul_sign(7, -1), -7);
    assert_eq!(mul_sign(-7, -1), 7);
}

#[test]
fn derived_spawn_geometry() {
    let cfg = test_config();
    assert_eq!(cfg.left_paddle_starting_position(), Vec2 { x: -348, y: 0 });
    assert_eq!(cfg.right_paddle_starting_position(), Vec2 { x: 348, y: 0 });
    assert_eq!(cfg.top_wall_position(), Vec2 { x: 0, y: 352 });
    assert_eq!(cfg.bottom_wall_position(), Vec2 { x: 0, y: -352 });
    assert_eq!(cfg.top_wall_scale(), Vec2 { x: 910, y: 5 });
    assert_eq!(cfg.bottom_wall_scale(), Vec2 { x: 910, y: 5 });
    assert_eq!(cfg.left_wall_position(), Vec2 { x: -452, y: 0 });
    assert_eq!(cfg.right_wall_position(), Vec2 { x: 452, y: 0 });
    assert_eq!(cfg.left_wall_scale(), Vec2 { x: 5, y: 710 });
    assert_eq!(cfg.right_wall_scale(), Vec2 { x: 5, y: 710 });
    assert_eq!(Config::ball_starting_position(), Vec2 { x: 0, y: 0 });
}
