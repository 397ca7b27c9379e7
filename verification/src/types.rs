//! The simulated data: 2D vectors, colors, rectangular bodies, walls with
//! their reflection vectors, and the ball with its velocity. Each executable
//! type has a ghost view over mathematical integers that the contracts and
//! the step functions speak of.

use vstd::prelude::*;
use crate::math::{COORD_LIMIT, iabs, sq};

verus! {

/// A 2D integer vector: a position, a scale (full extents) or a velocity.
#[derive(Clone, Copy, Debug, PartialEq, Eq, Structural)]
pub struct Vec2 {
    pub x: i64,
    pub y: i64,
}

pub ghost struct Vec2V {
    pub x: int,
    pub y: int,
}

impl View for Vec2 {
    type V = Vec2V;

    open spec fn view(&self) -> Vec2V {
        Vec2V { x: self.x as int, y: self.y as int }
    }
}

impl Vec2 {
    pub fn new(x: i64, y: i64) -> (r: Vec2)
        ensures
            r@.x == x as int,
            r@.y == y as int,
    {
        Vec2 { x, y }
    }
}

/// An RGB color tag, carried for the renderer and never read by the core.
#[derive(Clone, Copy, Debug, PartialEq, Eq, Structural)]
pub struct Color {
    pub r: u8,
    pub g: u8,
    pub b: u8,
}

/// A simulated rectangle: center position, draw layer, and full-extent
/// scale (so the half-width is `scale.x / 2`).
#[derive(Clone, Copy, Debug, PartialEq, Eq, Structural)]
pub struct Body {
    pub pos: Vec2,
    pub layer: i64,
    pub scale: Vec2,
}

pub ghost struct BodyV {
    pub pos: Vec2V,
    pub layer: int,
    pub scale: Vec2V,
}

impl View for Body {
    type V = BodyV;

    open spec fn view(&self) -> BodyV {
        BodyV { pos: self.pos@, layer: self.layer as int, scale: self.scale@ }
    }
}

/// A wall: a body plus the pair of signs its contact applies to the ball
/// velocity components (top/bottom walls invert y, left/right invert x).
#[derive(Clone, Copy, Debug, PartialEq, Eq, Structural)]
pub struct Wall {
    pub body: Body,
    pub reflect: Vec2,
}

pub ghost struct WallV {
    pub body: BodyV,
    pub reflect: Vec2V,
}

impl View for Wall {
    type V = WallV;

    open spec fn view(&self) -> WallV {
        WallV { body: self.body@, reflect: self.reflect@ }
    }
}

/// The ball: a body plus its velocity, the only velocity in the simulation.
#[derive(Clone, Copy, Debug, PartialEq, Eq, Structural)]
pub struct Ball {
    pub body: Body,
    pub vel: Vec2,
}

pub ghost struct BallV {
    pub body: BodyV,
    pub vel: Vec2V,
}

impl View for Ball {
    type V = BallV;

    open spec fn view(&self) -> BallV {
        BallV { body: self.body@, vel: self.vel@ }
    }
}

pub open spec fn in_coord(x: int) -> bool {
    -(COORD_LIMIT as int) <= x <= COORD_LIMIT as int
}

/// Geometry bounds under which every bound computation stays far from the
/// machine integer limits.
pub open spec fn body_in_range(b: BodyV) -> bool {
    &&& in_coord(b.pos.x)
    &&& in_coord(b.pos.y)
    &&& 0 <= b.scale.x <= COORD_LIMIT as int
    &&& 0 <= b.scale.y <= COORD_LIMIT as int
}

pub open spec fn vel_in_range(v: Vec2V, limit: int) -> bool {
    iabs(v.x) <= limit && iabs(v.y) <= limit
}

/// The squared magnitude of a velocity; the speed is its square root.
pub open spec fn speed_sq(v: Vec2V) -> int {
    sq(v.x) + sq(v.y)
}

/// A wall's reflection vector holds a sign in each component.
pub open spec fn wall_wf(w: WallV) -> bool {
    &&& (w.reflect.x == 1 || w.reflect.x == -1)
    &&& (w.reflect.y == 1 || w.reflect.y == -1)
}

} // verus!
