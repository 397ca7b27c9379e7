//! Immutable simulation parameters and the starting-position geometry
//! derived from them. Every derived position and scale is a pure function
//! of the stored fields, recomputed on each call and never cached.

use vstd::prelude::*;
use crate::math::{AGGR_LIMIT, VEL_LIMIT, half, half_i64};
use crate::types::{Color, Vec2, Vec2V, vel_in_range};

verus! {

/// Largest allowed arena dimension, paddle extent, padding or wall
/// thickness; keeps every derived coordinate within the coordinate range.
pub const ARENA_LIMIT: i64 = 262144;

#[derive(Clone, Copy, Debug, PartialEq, Eq, Structural)]
pub struct Config {
    /// Physics ticks per second; read only by the surrounding loop.
    pub physics_frames: u64,
    pub arena_size: Vec2,
    pub paddle_size: Vec2,
    pub paddle_padding: i64,
    pub paddle_color: Color,
    pub ball_color: Color,
    pub ball_size: Vec2,
    pub initial_ball_speed: Vec2,
    pub ai_paddle_speed: i64,
    pub angle_aggressiveness: i64,
    pub wall_thickness: i64,
}

pub ghost struct ConfigV {
    pub physics_frames: int,
    pub arena_size: Vec2V,
    pub paddle_size: Vec2V,
    pub paddle_padding: int,
    pub paddle_color: Color,
    pub ball_color: Color,
    pub ball_size: Vec2V,
    pub initial_ball_speed: Vec2V,
    pub ai_paddle_speed: int,
    pub angle_aggressiveness: int,
    pub wall_thickness: int,
}

impl View for Config {
    type V = ConfigV;

    open spec fn view(&self) -> ConfigV {
        ConfigV {
            physics_frames: self.physics_frames as int,
            arena_size: self.arena_size@,
            paddle_size: self.paddle_size@,
            paddle_padding: self.paddle_padding as int,
            paddle_color: self.paddle_color,
            ball_color: self.ball_color,
            ball_size: self.ball_size@,
            initial_ball_speed: self.initial_ball_speed@,
            ai_paddle_speed: self.ai_paddle_speed as int,
            angle_aggressiveness: self.angle_aggressiveness as int,
            wall_thickness: self.wall_thickness as int,
        }
    }
}

impl ConfigV {
    pub open spec fn wf(self) -> bool {
        &&& 1 <= self.physics_frames
        &&& 2 <= self.arena_size.x <= ARENA_LIMIT as int
        &&& 2 <= self.arena_size.y <= ARENA_LIMIT as int
        &&& 1 <= self.paddle_size.x <= ARENA_LIMIT as int
        &&& 1 <= self.paddle_size.y <= self.arena_size.y
        &&& 0 <= self.paddle_padding <= ARENA_LIMIT as int
        &&& 1 <= self.ball_size.x <= ARENA_LIMIT as int
        &&& 1 <= self.ball_size.y <= ARENA_LIMIT as int
        &&& vel_in_range(self.initial_ball_speed, VEL_LIMIT as int)
        &&& 0 <= self.ai_paddle_speed <= ARENA_LIMIT as int
        &&& 1 <= self.angle_aggressiveness <= AGGR_LIMIT as int
        &&& 1 <= self.wall_thickness <= ARENA_LIMIT as int
    }
}

pub open spec fn left_paddle_start(cfg: ConfigV) -> Vec2V {
    Vec2V { x: cfg.paddle_padding - half(cfg.arena_size.x) + half(cfg.paddle_size.x), y: 0 }
}

pub open spec fn right_paddle_start(cfg: ConfigV) -> Vec2V {
    Vec2V { x: half(cfg.arena_size.x) - cfg.paddle_padding - half(cfg.paddle_size.x), y: 0 }
}

pub open spec fn top_wall_pos(cfg: ConfigV) -> Vec2V {
    Vec2V { x: 0, y: half(cfg.arena_size.y) + half(cfg.wall_thickness) }
}

pub open spec fn bottom_wall_pos(cfg: ConfigV) -> Vec2V {
    Vec2V { x: 0, y: -(half(cfg.arena_size.y) + half(cfg.wall_thickness)) }
}

pub open spec fn horizontal_wall_scale(cfg: ConfigV) -> Vec2V {
    Vec2V { x: cfg.arena_size.x + 2 * cfg.wall_thickness, y: cfg.wall_thickness }
}

pub open spec fn left_wall_pos(cfg: ConfigV) -> Vec2V {
    Vec2V { x: -(half(cfg.arena_size.x) + half(cfg.wall_thickness)), y: 0 }
}

pub open spec fn right_wall_pos(cfg: ConfigV) -> Vec2V {
    Vec2V { x: half(cfg.arena_size.x) + half(cfg.wall_thickness), y: 0 }
}

pub open spec fn vertical_wall_scale(cfg: ConfigV) -> Vec2V {
    Vec2V { x: cfg.wall_thickness, y: cfg.arena_size.y + 2 * cfg.wall_thickness }
}

pub open spec fn ball_start() -> Vec2V {
    Vec2V { x: 0, y: 0 }
}

impl Config {
    pub fn left_paddle_starting_position(&self) -> (r: Vec2)
        requires
            self@.wf(),
        ensures
            r@ == left_paddle_start(self@),
    {
        Vec2 {
            x: self.paddle_padding - half_i64(self.arena_size.x) + half_i64(self.paddle_size.x),
            y: 0,
        }
    }

    pub fn right_paddle_starting_position(&self) -> (r: Vec2)
        requires
            self@.wf(),
        ensures
            r@ == right_paddle_start(self@),
    {
        Vec2 {
            x: half_i64(self.arena_size.x) - self.paddle_padding - half_i64(self.paddle_size.x),
            y: 0,
        }
    }

    pub fn top_wall_position(&self) -> (r: Vec2)
        requires
            self@.wf(),
        ensures
            r@ == top_wall_pos(self@),
    {
        Vec2 { x: 0, y: half_i64(self.arena_size.y) + half_i64(self.wall_thickness) }
    }

    pub fn top_wall_scale(&self) -> (r: Vec2)
        requires
            self@.wf(),
        ensures
            r@ == horizontal_wall_scale(self@),
    {
        Vec2 { x: self.arena_size.x + 2 * self.wall_thickness, y: self.wall_thickness }
    }

    pub fn bottom_wall_position(&self) -> (r: Vec2)
        requires
            self@.wf(),
        ensures
            r@ == bottom_wall_pos(self@),
    {
        Vec2 { x: 0, y: -(half_i64(self.arena_size.y) + half_i64(self.wall_thickness)) }
    }

    pub fn bottom_wall_scale(&self) -> (r: Vec2)
        requires
            self@.wf(),
        ensures
            r@ == horizontal_wall_scale(self@),
    {
        Vec2 { x: self.arena_size.x + 2 * self.wall_thickness, y: self.wall_thickness }
    }

    pub fn left_wall_position(&self) -> (r: Vec2)
        requires
            self@.wf(),
        ensures
            r@ == left_wall_pos(self@),
    {
        Vec2 { x: -(half_i64(self.arena_size.x) + half_i64(self.wall_thickness)), y: 0 }
    }

    pub fn left_wall_scale(&self) -> (r: Vec2)
        requires
            self@.wf(),
        ensures
            r@ == vertical_wall_scale(self@),
    {
        Vec2 { x: self.wall_thickness, y: self.arena_size.y + 2 * self.wall_thickness }
    }

    pub fn right_wall_position(&self) -> (r: Vec2)
        requires
            self@.wf(),
        ensures
            r@ == right_wall_pos(self@),
    {
        Vec2 { x: half_i64(self.arena_size.x) + half_i64(self.wall_thickness), y: 0 }
    }

    pub fn right_wall_scale(&self) -> (r: Vec2)
        requires
            self@.wf(),
        ensures
            r@ == vertical_wall_scale(self@),
    {
        Vec2 { x: self.wall_thickness, y: self.arena_size.y + 2 * self.wall_thickness }
    }

    pub fn ball_starting_position() -> (r: Vec2)
        ensures
            r@ == ball_start(),
    {
        Vec2 { x: 0, y: 0 }
    }
}

} // verus!
