//! One full fixed-timestep tick, in the required order: human paddle move,
//! AI paddle move, ball move with paddle bounces, wall bounces. The AI
//! reacts to the ball position from the end of the previous tick, and the
//! ball-paddle check sees this tick's paddle positions.

use vstd::prelude::*;
use crate::ball::{ball_step, ball_step_req, lemma_ball_step_in_range, move_ball};
use crate::config::{Config, ConfigV};
use crate::paddle::{ai_paddle_step, left_paddle_step, move_ai_paddle, move_left_paddle};
use crate::wall::{bounce_walls, wall_step};
use crate::world::{World, WorldV, world_in_range};

verus! {

/// The world after one tick: the four stages composed in order.
pub open spec fn tick_spec(w: WorldV, cfg: ConfigV, up: bool, down: bool) -> WorldV {
    wall_step(ball_step(ai_paddle_step(left_paddle_step(w, cfg, up, down), cfg), cfg))
}

/// What a tick asks of its caller: a well-formed config and world, and the
/// ball-stage conditions holding of the world as the freshly-moved paddles
/// leave it.
pub open spec fn tick_req(w: WorldV, cfg: ConfigV, up: bool, down: bool) -> bool {
    &&& cfg.wf()
    &&& world_in_range(w)
    &&& ball_step_req(ai_paddle_step(left_paddle_step(w, cfg, up, down), cfg), cfg)
}

/// Runs one tick of the ordered update sequence.
pub fn tick(world: &mut World, cfg: &Config, up: bool, down: bool)
    requires
        tick_req(old(world)@, cfg@, up, down),
    ensures
        final(world)@ == tick_spec(old(world)@, cfg@, up, down),
{
    move_left_paddle(world, cfg, up, down);
    move_ai_paddle(world, cfg);
    move_ball(world, cfg);
    proof {
        lemma_ball_step_in_range(
            ai_paddle_step(left_paddle_step(old(world)@, cfg@, up, down), cfg@),
            cfg@,
        );
    }
    bounce_walls(world);
}

} // verus!
