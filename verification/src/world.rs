//! The live world state: one ball, two paddles and four walls, owned
//! directly so that the one-ball/two-paddle/four-wall contract is a
//! structural guarantee, plus the startup construction from a config.

use vstd::prelude::*;
use crate::config::{
    Config, ConfigV, ball_start, bottom_wall_pos, horizontal_wall_scale, left_paddle_start,
    left_wall_pos, right_paddle_start, right_wall_pos, top_wall_pos, vertical_wall_scale,
};
use crate::math::DRAW_LAYER;
use crate::types::{
    Ball, BallV, Body, BodyV, Vec2, Vec2V, Wall, WallV, body_in_range, wall_wf,
};

verus! {

#[derive(Clone, Copy, Debug, PartialEq, Eq, Structural)]
pub struct World {
    pub ball: Ball,
    pub left_paddle: Body,
    pub right_paddle: Body,
    pub top_wall: Wall,
    pub bottom_wall: Wall,
    pub left_wall: Wall,
    pub right_wall: Wall,
}

pub ghost struct WorldV {
    pub ball: BallV,
    pub left_paddle: BodyV,
    pub right_paddle: BodyV,
    pub top_wall: WallV,
    pub bottom_wall: WallV,
    pub left_wall: WallV,
    pub right_wall: WallV,
}

impl View for World {
    type V = WorldV;

    open spec fn view(&self) -> WorldV {
        WorldV {
            ball: self.ball@,
            left_paddle: self.left_paddle@,
            right_paddle: self.right_paddle@,
            top_wall: self.top_wall@,
            bottom_wall: self.bottom_wall@,
            left_wall: self.left_wall@,
            right_wall: self.right_wall@,
        }
    }
}

/// Geometric well-formedness of a world: every body within the coordinate
/// range, paddles at least one unit tall, and each wall carrying signs.
pub open spec fn world_in_range(w: WorldV) -> bool {
    &&& body_in_range(w.ball.body)
    &&& body_in_range(w.left_paddle)
    &&& body_in_range(w.right_paddle)
    &&& body_in_range(w.top_wall.body)
    &&& body_in_range(w.bottom_wall.body)
    &&& body_in_range(w.left_wall.body)
    &&& body_in_range(w.right_wall.body)
    &&& w.left_paddle.scale.y >= 1
    &&& w.right_paddle.scale.y >= 1
    &&& wall_wf(w.top_wall)
    &&& wall_wf(w.bottom_wall)
    &&& wall_wf(w.left_wall)
    &&& wall_wf(w.right_wall)
}

/// The world at startup, derived from the config alone: paddles at their
/// spawn columns, the ball at the center with the initial velocity, and the
/// four walls just outside the arena with their reflection vectors.
pub open spec fn setup_spec(cfg: ConfigV) -> WorldV {
    WorldV {
        ball: BallV {
            body: BodyV { pos: ball_start(), layer: DRAW_LAYER as int, scale: cfg.ball_size },
            vel: cfg.initial_ball_speed,
        },
        left_paddle: BodyV {
            pos: left_paddle_start(cfg),
            layer: DRAW_LAYER as int,
            scale: cfg.paddle_size,
        },
        right_paddle: BodyV {
            pos: right_paddle_start(cfg),
            layer: DRAW_LAYER as int,
            scale: cfg.paddle_size,
        },
        top_wall: WallV {
            body: BodyV {
                pos: top_wall_pos(cfg),
                layer: DRAW_LAYER as int,
                scale: horizontal_wall_scale(cfg),
            },
            reflect: Vec2V { x: 1, y: -1 },
        },
        bottom_wall: WallV {
            body: BodyV {
                pos: bottom_wall_pos(cfg),
                layer: DRAW_LAYER as int,
                scale: horizontal_wall_scale(cfg),
            },
            reflect: Vec2V { x: 1, y: -1 },
        },
        left_wall: WallV {
            body: BodyV {
                pos: left_wall_pos(cfg),
                layer: DRAW_LAYER as int,
                scale: vertical_wall_scale(cfg),
            },
            reflect: Vec2V { x: -1, y: 1 },
        },
        right_wall: WallV {
            body: BodyV {
                pos: right_wall_pos(cfg),
                layer: DRAW_LAYER as int,
                scale: vertical_wall_scale(cfg),
            },
            reflect: Vec2V { x: -1, y: 1 },
        },
    }
}

/// A well-formed config spawns a geometrically well-formed world.
pub proof fn lemma_setup_in_range(cfg: ConfigV)
    requires
        cfg.wf(),
    ensures
        world_in_range(setup_spec(cfg)),
{
}

/// Constructs the world once at startup; every body lives for the process
/// lifetime and no spawn or despawn occurs during play.
pub fn setup(cfg: &Config) -> (w: World)
    requires
        cfg@.wf(),
    ensures
        w@ == setup_spec(cfg@),
        world_in_range(w@),
{
    proof {
        lemma_setup_in_range(cfg@);
    }
    let horizontal_scale = cfg.top_wall_scale();
    let vertical_scale = cfg.left_wall_scale();
    World {
        ball: Ball {
            body: Body {
                pos: Config::ball_starting_position(),
                layer: DRAW_LAYER,
                scale: cfg.ball_size,
            },
            vel: cfg.initial_ball_speed,
        },
        left_paddle: Body {
            pos: cfg.left_paddle_starting_position(),
            layer: DRAW_LAYER,
            scale: cfg.paddle_size,
        },
        right_paddle: Body {
            pos: cfg.right_paddle_starting_position(),
            layer: DRAW_LAYER,
            scale: cfg.paddle_size,
        },
        top_wall: Wall {
            body: Body { pos: cfg.top_wall_position(), layer: DRAW_LAYER, scale: horizontal_scale },
            reflect: Vec2 { x: 1, y: -1 },
        },
        bottom_wall: Wall {
            body: Body {
                pos: cfg.bottom_wall_position(),
                layer: DRAW_LAYER,
                scale: horizontal_scale,
            },
            reflect: Vec2 { x: 1, y: -1 },
        },
        left_wall: Wall {
            body: Body { pos: cfg.left_wall_position(), layer: DRAW_LAYER, scale: vertical_scale },
            reflect: Vec2 { x: -1, y: 1 },
        },
        right_wall: Wall {
            body: Body { pos: cfg.right_wall_position(), layer: DRAW_LAYER, scale: vertical_scale },
            reflect: Vec2 { x: -1, y: 1 },
        },
    }
}

} // verus!
