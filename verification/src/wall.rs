//! Wall bouncing: a position-preserving, per-axis sign flip of the ball
//! velocity on contact. Walls are processed in a fixed order (top, bottom,
//! left, right); overlapping several in one tick compounds the flips.

use vstd::prelude::*;
use crate::geometry::{aabb_overlap, bodies_overlap};
use crate::math::{BOUNCE_VEL_LIMIT, mul_sign};
use crate::types::{BallV, Vec2V, WallV, speed_sq, vel_in_range, wall_wf};
use crate::world::{World, WorldV, world_in_range};

verus! {

/// The velocity after wall contact: each component multiplied by the
/// wall's stored reflection sign for that axis.
pub open spec fn reflect_vel(v: Vec2V, r: Vec2V) -> Vec2V {
    Vec2V { x: v.x * r.x, y: v.y * r.y }
}

/// One wall's response: flip the velocity signs exactly when the wall's
/// bounding box overlaps the ball's current bounding box.
pub open spec fn wall_bounce_one(b: BallV, wall: WallV) -> BallV {
    if bodies_overlap(wall.body, b.body) {
        BallV { vel: reflect_vel(b.vel, wall.reflect), ..b }
    } else {
        b
    }
}

/// All four walls, in fixed order: top, bottom, left, right.
pub open spec fn wall_step(w: WorldV) -> WorldV {
    let b1 = wall_bounce_one(w.ball, w.top_wall);
    let b2 = wall_bounce_one(b1, w.bottom_wall);
    let b3 = wall_bounce_one(b2, w.left_wall);
    let b4 = wall_bounce_one(b3, w.right_wall);
    WorldV { ball: b4, ..w }
}

/// Wall sign invariant: a top or bottom wall (reflection `(1, -1)`) inverts
/// the vertical velocity only; a left or right wall (reflection `(-1, 1)`)
/// inverts the horizontal velocity only.
pub proof fn lemma_wall_sign_invariant(v: Vec2V, r: Vec2V)
    ensures
        r.x == 1 && r.y == -1 ==> reflect_vel(v, r) == (Vec2V { x: v.x, y: -v.y }),
        r.x == -1 && r.y == 1 ==> reflect_vel(v, r) == (Vec2V { x: -v.x, y: v.y }),
{
}

/// A wall bounce preserves the squared speed exactly.
pub proof fn lemma_wall_bounce_speed(v: Vec2V, r: Vec2V)
    requires
        r.x == 1 || r.x == -1,
        r.y == 1 || r.y == -1,
    ensures
        speed_sq(reflect_vel(v, r)) == speed_sq(v),
{
    assert((-v.x) * (-v.x) == v.x * v.x && (-v.y) * (-v.y) == v.y * v.y) by (nonlinear_arith);
}

/// Tests each wall against the ball's current bounds and applies the
/// wall's reflection signs on overlap; the position is never corrected.
pub fn bounce_walls(world: &mut World)
    requires
        world_in_range(old(world)@),
        vel_in_range(old(world)@.ball.vel, BOUNCE_VEL_LIMIT as int),
    ensures
        final(world)@ == wall_step(old(world)@),
{
    if aabb_overlap(&world.top_wall.body, &world.ball.body) {
        world.ball.vel.x = mul_sign(world.ball.vel.x, world.top_wall.reflect.x);
        world.ball.vel.y = mul_sign(world.ball.vel.y, world.top_wall.reflect.y);
    }
    if aabb_overlap(&world.bottom_wall.body, &world.ball.body) {
        world.ball.vel.x = mul_sign(world.ball.vel.x, world.bottom_wall.reflect.x);
        world.ball.vel.y = mul_sign(world.ball.vel.y, world.bottom_wall.reflect.y);
    }
    if aabb_overlap(&world.left_wall.body, &world.ball.body) {
        world.ball.vel.x = mul_sign(world.ball.vel.x, world.left_wall.reflect.x);
        world.ball.vel.y = mul_sign(world.ball.vel.y, world.left_wall.reflect.y);
    }
    if aabb_overlap(&world.right_wall.body, &world.ball.body) {
        world.ball.vel.x = mul_sign(world.ball.vel.x, world.right_wall.reflect.x);
        world.ball.vel.y = mul_sign(world.ball.vel.y, world.right_wall.reflect.y);
    }
}

} // verus!
