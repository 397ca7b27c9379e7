use pong::ball::{move_ball, paddle_bounce};
use pong::config::Config;
use pong::paddle::{move_ai_paddle, move_left_paddle};
use pong::tick::tick;
use pong::types::{Ball, Body, Color, Vec2, Wall};
use pong::wall::bounce_walls;
use pong::world::{setup, World};

fn test_config() -> Config {
    Config {
        physics_frames: 60,
        arena_size: Vec2 { x: 900, y: 700 },
        paddle_size: Vec2 { x: 5, y: 100 },
        paddle_padding: 100,
        paddle_color: Color { r: 255, g: 255, b: 255 },
        ball_color: Color { r: 255, g: 0, b: 0 },
        ball_size: Vec2 { x: 20, y: 20 },
        initial_ball_speed: Vec2 { x: -10, y: 0 },
        ai_paddle_speed: 5,
        angle_aggressiveness: 2,
        wall_thickness: 5,
    }
}

fn far_body(x: i64, y: i64) -> Body {
    Body { pos: Vec2 { x, y }, layer: 1, scale: Vec2 { x: 10, y: 10 } }
}

/// A world whose paddles and all walls but the top one are far from the
/// origin, for isolated wall-bounce scenarios.
fn isolated_world(ball: Ball, top_wall: Wall) -> World {
    World {
        ball,
        left_paddle: far_body(-500000, 400000),
        right_paddle: far_body(500000, 400000),
        top_wall,
        bottom_wall: Wall { body: far_body(0, -500000), reflect: Vec2 { x: 1, y: -1 } },
        left_wall: Wall { body: far_body(-500000, 0), reflect: Vec2 { x: -1, y: 1 } },
        right_wall: Wall { body: far_body(500000, 0), reflect: Vec2 { x: -1, y: 1 } },
    }
}

#[test]
fn setup_spawns_expected_world() {
    let cfg = test_config();
    let w = setup(&cfg);
    assert_eq!(w.ball.body.pos, Vec2 { x: 0, y: 0 });
    assert_eq!(w.ball.body.scale, Vec2 { x: 20, y: 20 });
    assert_eq!(w.ball.vel, Vec2 { x: -10, y: 0 });
    assert_eq!(w.left_paddle.pos, Vec2 { x: -348, y: 0 });
    assert_eq!(w.right_paddle.pos, Vec2 { x: 348, y: 0 });
    assert_eq!(w.left_paddle.scale, Vec2 { x: 5, y: 100 });
    assert_eq!(w.top_wall.reflect, Vec2 { x: 1, y: -1 });
    assert_eq!(w.bottom_wall.reflect, Vec2 { x: 1, y: -1 });
    assert_eq!(w.left_wall.reflect, Vec2 { x: -1, y: 1 });
    assert_eq!(w.right_wall.reflect, Vec2 { x: -1, y: 1 });
    assert_eq!(w.top_wall.body.pos, Vec2 { x: 0, y: 352 });
    assert_eq!(w.top_wall.body.scale, Vec2 { x: 910, y: 5 });
}

#[test]
fn free_ball_moves_by_velocity() {
    // ball at the center with velocity (-10, 0); nothing in range
    let cfg = test_config();
    let mut w = setup(&cfg);
    move_ball(&mut w, &cfg);
    assert_eq!(w.ball.body.pos, Vec2 { x: -10, y: 0 });
    assert_eq!(w.ball.vel, Vec2 { x: -10, y: 0 });
    bounce_walls(&mut w);
    assert_eq!(w.ball.body.pos, Vec2 { x: -10, y: 0 });
    assert_eq!(w.ball.vel, Vec2 { x: -10, y: 0 });
}

#[test]
fn free_tick_leaves_paddles_and_velocity() {
    let cfg = test_config();
    let mut w = setup(&cfg);
    tick(&mut w, &cfg, false, false);
    assert_eq!(w.ball.body.pos, Vec2 { x: -10, y: 0 });
    assert_eq!(w.ball.vel, Vec2 { x: -10, y: 0 });
    assert_eq!(w.left_paddle.pos, Vec2 { x: -348, y: 0 });
    assert_eq!(w.right_paddle.pos, Vec2 { x: 348, y: 0 });
}

#[test]
fn top_wall_flips_vertical_only() {
    // ball box [-10,10]x[-10,10] touching top wall box [-5,5]x[5,15]
    let ball = Ball {
        body: Body { pos: Vec2 { x: 0, y: 0 }, layer: 1, scale: Vec2 { x: 20, y: 20 } },
        vel: Vec2 { x: 3, y: 7 },
    };
    let top = Wall {
        body: Body { pos: Vec2 { x: 0, y: 10 }, layer: 1, scale: Vec2 { x: 10, y: 10 } },
        reflect: Vec2 { x: 1, y: -1 },
    };
    let mut w = isolated_world(ball, top);
    bounce_walls(&mut w);
    assert_eq!(w.ball.vel, Vec2 { x: 3, y: -7 });
    assert_eq!(w.ball.body.pos, Vec2 { x: 0, y: 0 });
}

#[test]
fn left_wall_flips_horizontal_only() {
    let cfg = test_config();
    let mut w = setup(&cfg);
    // place the ball against the left wall at x = -452 (half-width 2)
    w.ball.body.pos = Vec2 { x: -445, y: 0 };
    w.ball.vel = Vec2 { x: -6, y: 4 };
    bounce_walls(&mut w);
    assert_eq!(w.ball.vel, Vec2 { x: 6, y: 4 });
    assert_eq!(w.ball.body.pos, Vec2 { x: -445, y: 0 });
}

#[test]
fn corner_overlap_compounds_flips() {
    let ball = Ball {
        body: Body { pos: Vec2 { x: 0, y: 0 }, layer: 1, scale: Vec2 { x: 20, y: 20 } },
        vel: Vec2 { x: 3, y: 7 },
    };
    let top = Wall {
        body: Body { pos: Vec2 { x: 0, y: 10 }, layer: 1, scale: Vec2 { x: 10, y: 10 } },
        reflect: Vec2 { x: 1, y: -1 },
    };
    let mut w = isolated_world(ball, top);
    // move the left wall into range too
    w.left_wall.body = Body { pos: Vec2 { x: -10, y: 0 }, layer: 1, scale: Vec2 { x: 10, y: 10 } };
    bounce_walls(&mut w);
    assert_eq!(w.ball.vel, Vec2 { x: -3, y: -7 });
}

#[test]
fn left_paddle_steps_up_by_ten() {
    // left paddle at y = 0, only "up" held, step constant 10
    let cfg = test_config();
    let mut w = setup(&cfg);
    move_left_paddle(&mut w, &cfg, true, false);
    assert_eq!(w.left_paddle.pos.y, 10);
    assert_eq!(w.left_paddle.pos.x, -348);
}

#[test]
fn left_paddle_clamps_at_arena_edge() {
    // bound is arena/2 - paddle/2 = 350 - 50 = 300
    let cfg = test_config();
    let mut w = setup(&cfg);
    w.left_paddle.pos.y = 295;
    move_left_paddle(&mut w, &cfg, true, false);
    assert_eq!(w.left_paddle.pos.y, 300);
    w.left_paddle.pos.y = -295;
    move_left_paddle(&mut w, &cfg, false, true);
    assert_eq!(w.left_paddle.pos.y, -300);
}

#[test]
fn left_paddle_both_keys_cancel() {
    let cfg = test_config();
    let mut w = setup(&cfg);
    w.left_paddle.pos.y = 42;
    move_left_paddle(&mut w, &cfg, true, true);
    assert_eq!(w.left_paddle.pos.y, 42);
}

#[test]
fn ai_paddle_snaps_within_one_step() {
    // |ballY - paddleY| <= aiSpeed: one tick sets paddleY == ballY exactly
    let cfg = test_config();
    let mut w = setup(&cfg);
    w.ball.body.pos.y = 3;
    move_ai_paddle(&mut w, &cfg);
    assert_eq!(w.right_paddle.pos.y, 3);
}

#[test]
fn ai_paddle_moves_by_exactly_its_speed() {
    let cfg = test_config();
    let mut w = setup(&cfg);
    w.ball.body.pos.y = 100;
    move_ai_paddle(&mut w, &cfg);
    assert_eq!(w.right_paddle.pos.y, 5);
    w.ball.body.pos.y = -100;
    w.right_paddle.pos.y = 0;
    move_ai_paddle(&mut w, &cfg);
    assert_eq!(w.right_paddle.pos.y, -5);
}

#[test]
fn ai_paddle_clamps_at_arena_edge() {
    let cfg = test_config();
    let mut w = setup(&cfg);
    w.right_paddle.pos.y = 298;
    w.ball.body.pos.y = 301;
    move_ai_paddle(&mut w, &cfg);
    assert_eq!(w.right_paddle.pos.y, 300);
}

#[test]
fn paddle_bounce_center_hit_reverses() {
    // centered hit: no shaping, the ball reverses at full speed
    let r = paddle_bounce(Vec2 { x: -10, y: 0 }, 0, 0, 100, 2);
    assert_eq!(r, Vec2 { x: 10, y: 0 });
}

#[test]
fn paddle_bounce_offset_shapes_angle() {
    // ball 10 above the paddle center: raw vy = (-10 * -10 * 2) / 100 = 2
    let r = paddle_bounce(Vec2 { x: -10, y: 0 }, 10, 0, 100, 2);
    assert_eq!(r, Vec2 { x: 10, y: 2 });
    // squared speed 104 sits in the rounding band around 100
    assert_eq!(r.x * r.x + r.y * r.y, 104);
    // ball 10 below the paddle center mirrors the shaping
    let r2 = paddle_bounce(Vec2 { x: -10, y: 0 }, -10, 0, 100, 2);
    assert_eq!(r2, Vec2 { x: 10, y: -2 });
}

#[test]
fn move_ball_bounces_off_left_paddle() {
    let cfg = test_config();
    let mut w = setup(&cfg);
    // one step short of the paddle at x = -348 (half-widths 2 + 10)
    w.ball.body.pos = Vec2 { x: -337, y: 0 };
    move_ball(&mut w, &cfg);
    assert_eq!(w.ball.body.pos, Vec2 { x: -347, y: 0 });
    assert_eq!(w.ball.vel, Vec2 { x: 10, y: 0 });
}
