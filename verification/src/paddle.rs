//! Paddle control: the human-driven left paddle, accumulating a unit step
//! per held key, and the right paddle's bang-bang tracker with a dead-zone
//! snap. Both clamp the vertical position so the paddle never exits the
//! arena.

use vstd::prelude::*;
use crate::config::{Config, ConfigV};
use crate::math::{PADDLE_STEP, clamp, clamp_spec, half, half_i64, iabs};
use crate::types::{BodyV, Vec2V, in_coord};
use crate::world::{World, WorldV};

verus! {

/// Lowest vertical position a paddle center may take.
pub open spec fn paddle_y_min(cfg: ConfigV) -> int {
    half(cfg.paddle_size.y) - half(cfg.arena_size.y)
}

/// Highest vertical position a paddle center may take.
pub open spec fn paddle_y_max(cfg: ConfigV) -> int {
    half(cfg.arena_size.y) - half(cfg.paddle_size.y)
}

/// Unit direction accumulated from the two held-key signals: up adds one,
/// down subtracts one, both held cancel to zero.
pub open spec fn steer(up: bool, down: bool) -> int {
    (if up {
        1int
    } else {
        0int
    }) - (if down {
        1int
    } else {
        0int
    })
}

/// One tick of the human-controlled left paddle: step by the held keys,
/// then clamp to the arena.
pub open spec fn left_paddle_step(w: WorldV, cfg: ConfigV, up: bool, down: bool) -> WorldV {
    WorldV {
        left_paddle: BodyV {
            pos: Vec2V {
                x: w.left_paddle.pos.x,
                y: clamp_spec(
                    w.left_paddle.pos.y + (PADDLE_STEP as int) * steer(up, down),
                    paddle_y_min(cfg),
                    paddle_y_max(cfg),
                ),
            },
            ..w.left_paddle
        },
        ..w
    }
}

/// Where the AI paddle aims: snap exactly onto the ball when it is within
/// one step, otherwise move by exactly the AI speed toward it.
pub open spec fn ai_target(ball_y: int, paddle_y: int, speed: int) -> int {
    let d = ball_y - paddle_y;
    if -speed <= d && d <= speed {
        paddle_y + d
    } else if d < 0 {
        paddle_y - speed
    } else {
        paddle_y + speed
    }
}

/// One tick of the AI-controlled right paddle: track the ball's vertical
/// position, then clamp to the arena.
pub open spec fn ai_paddle_step(w: WorldV, cfg: ConfigV) -> WorldV {
    WorldV {
        right_paddle: BodyV {
            pos: Vec2V {
                x: w.right_paddle.pos.x,
                y: clamp_spec(
                    ai_target(w.ball.body.pos.y, w.right_paddle.pos.y, cfg.ai_paddle_speed),
                    paddle_y_min(cfg),
                    paddle_y_max(cfg),
                ),
            },
            ..w.right_paddle
        },
        ..w
    }
}

/// Whatever input accumulates, the left paddle's vertical position stays
/// within the arena bounds.
pub proof fn lemma_left_paddle_clamped(w: WorldV, cfg: ConfigV, up: bool, down: bool)
    requires
        cfg.wf(),
    ensures
        paddle_y_min(cfg) <= left_paddle_step(w, cfg, up, down).left_paddle.pos.y <= paddle_y_max(
            cfg,
        ),
{
}

/// The AI paddle's vertical position stays within the arena bounds.
pub proof fn lemma_ai_paddle_clamped(w: WorldV, cfg: ConfigV)
    requires
        cfg.wf(),
    ensures
        paddle_y_min(cfg) <= ai_paddle_step(w, cfg).right_paddle.pos.y <= paddle_y_max(cfg),
{
}

/// AI convergence: when the ball is within one AI step and inside the
/// paddle's reachable band, one tick sets the paddle exactly onto the
/// ball's vertical position. Outside that band the clamp takes over.
pub proof fn lemma_ai_convergence(w: WorldV, cfg: ConfigV)
    requires
        cfg.wf(),
        iabs(w.ball.body.pos.y - w.right_paddle.pos.y) <= cfg.ai_paddle_speed,
        paddle_y_min(cfg) <= w.ball.body.pos.y <= paddle_y_max(cfg),
    ensures
        ai_paddle_step(w, cfg).right_paddle.pos.y == w.ball.body.pos.y,
{
}

/// Reads the two discrete held-key signals, accumulates a unit step per
/// active signal, scales by the per-tick step constant, and clamps.
pub fn move_left_paddle(world: &mut World, cfg: &Config, up: bool, down: bool)
    requires
        cfg@.wf(),
        in_coord(old(world)@.left_paddle.pos.y),
    ensures
        final(world)@ == left_paddle_step(old(world)@, cfg@, up, down),
{
    let mut dy: i64 = 0;
    if up {
        dy = dy + 1;
    }
    if down {
        dy = dy - 1;
    }
    let stepped = world.left_paddle.pos.y + PADDLE_STEP * dy;
    let lo = half_i64(cfg.paddle_size.y) - half_i64(cfg.arena_size.y);
    let hi = half_i64(cfg.arena_size.y) - half_i64(cfg.paddle_size.y);
    world.left_paddle.pos.y = clamp(stepped, lo, hi);
}

/// Tracks the ball's vertical position: snap when within one AI step,
/// otherwise move by exactly the AI speed toward the ball, then clamp.
pub fn move_ai_paddle(world: &mut World, cfg: &Config)
    requires
        cfg@.wf(),
        in_coord(old(world)@.right_paddle.pos.y),
        in_coord(old(world)@.ball.body.pos.y),
    ensures
        final(world)@ == ai_paddle_step(old(world)@, cfg@),
{
    let delta_y = world.ball.body.pos.y - world.right_paddle.pos.y;
    let speed = cfg.ai_paddle_speed;
    let y = world.right_paddle.pos.y;
    let target = if delta_y >= -speed && delta_y <= speed {
        y + delta_y
    } else if delta_y < 0 {
        y - speed
    } else {
        y + speed
    };
    let lo = half_i64(cfg.paddle_size.y) - half_i64(cfg.arena_size.y);
    let hi = half_i64(cfg.arena_size.y) - half_i64(cfg.paddle_size.y);
    world.right_paddle.pos.y = clamp(target, lo, hi);
}

} // verus!
