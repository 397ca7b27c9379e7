//! Ball integration and the paddle-bounce response: explicit Euler motion,
//! then for each paddle (left first, then right) an AABB check against the
//! already-moved ball, and on overlap an angle-shaping reflection that
//! re-derives the vertical velocity from the hit offset and rescales the
//! result back to the pre-bounce speed.

use vstd::prelude::*;
use crate::config::{Config, ConfigV};
use crate::geometry::{aabb_overlap, bodies_overlap};
use crate::math::{
    AGGR_LIMIT, BOUNCE_VEL_LIMIT, COORD_LIMIT, VEL_LIMIT, iabs, isqrt, isqrt_spec,
    lemma_abs_le_of_sq_le, lemma_isqrt_spec, lemma_trunc_div_abs_le, lemma_trunc_div_sq_bounds,
    sq, trunc_div, trunc_div_i128,
};
use crate::types::{BallV, BodyV, Vec2, Vec2V, body_in_range, in_coord, speed_sq, vel_in_range};
use crate::world::{World, WorldV, world_in_range};

verus! {

/// The shaped vertical velocity before rescaling: the hit offset from the
/// paddle center, scaled inversely by the paddle height and amplified by
/// the angle-aggressiveness constant, coupled to the pre-bounce horizontal
/// speed.
pub open spec fn raw_bounce_vy(vx: int, ball_y: int, paddle_y: int, paddle_h: int, aggr: int) -> int {
    trunc_div(vx * (paddle_y - ball_y) * aggr, paddle_h)
}

/// The post-bounce velocity: horizontal component reflected, vertical
/// re-derived from the hit offset, then the vector rescaled so its
/// magnitude returns to the pre-bounce speed (up to integer rounding).
pub open spec fn bounced_vel(v: Vec2V, ball_y: int, paddle_y: int, paddle_h: int, aggr: int) -> Vec2V {
    let s = isqrt_spec(speed_sq(v));
    let rx = -v.x;
    let ry = raw_bounce_vy(v.x, ball_y, paddle_y, paddle_h, aggr);
    let n = isqrt_spec(sq(rx) + sq(ry));
    Vec2V { x: trunc_div(rx * s, n), y: trunc_div(ry * s, n) }
}

/// The ball after one explicit-Euler step: position advanced by the
/// velocity, velocity untouched.
pub open spec fn moved_ball(b: BallV) -> BallV {
    BallV {
        body: BodyV {
            pos: Vec2V { x: b.body.pos.x + b.vel.x, y: b.body.pos.y + b.vel.y },
            ..b.body
        },
        ..b
    }
}

/// The ball velocity after the left-paddle check on the moved ball.
pub open spec fn vel_after_left(w: WorldV, cfg: ConfigV) -> Vec2V {
    let mb = moved_ball(w.ball);
    if bodies_overlap(w.left_paddle, mb.body) {
        bounced_vel(
            mb.vel,
            mb.body.pos.y,
            w.left_paddle.pos.y,
            w.left_paddle.scale.y,
            cfg.angle_aggressiveness,
        )
    } else {
        mb.vel
    }
}

/// The ball velocity after both paddle checks, left first then right; a
/// second simultaneous overlap reapplies the transform to the already
/// updated velocity, so the last processed paddle wins.
pub open spec fn vel_after_paddles(w: WorldV, cfg: ConfigV) -> Vec2V {
    let mb = moved_ball(w.ball);
    let v1 = vel_after_left(w, cfg);
    if bodies_overlap(w.right_paddle, mb.body) {
        bounced_vel(
            v1,
            mb.body.pos.y,
            w.right_paddle.pos.y,
            w.right_paddle.scale.y,
            cfg.angle_aggressiveness,
        )
    } else {
        v1
    }
}

/// One ball tick: move, then resolve paddle collisions.
pub open spec fn ball_step(w: WorldV, cfg: ConfigV) -> WorldV {
    let mb = moved_ball(w.ball);
    WorldV { ball: BallV { body: mb.body, vel: vel_after_paddles(w, cfg) }, ..w }
}

/// What a ball tick asks of its caller: a well-formed config and world,
/// the velocity within the tick bound, the moved ball still within the
/// coordinate range, and a nonzero horizontal velocity going into any
/// bounce that actually happens (a bounce of a vertically-moving ball has
/// no direction to reflect, and the finite-velocity invariant would break).
pub open spec fn ball_step_req(w: WorldV, cfg: ConfigV) -> bool {
    let mb = moved_ball(w.ball);
    &&& cfg.wf()
    &&& world_in_range(w)
    &&& vel_in_range(w.ball.vel, VEL_LIMIT as int)
    &&& body_in_range(mb.body)
    &&& (bodies_overlap(w.left_paddle, mb.body) ==> w.ball.vel.x != 0)
    &&& (bodies_overlap(w.right_paddle, mb.body) ==> vel_after_left(w, cfg).x != 0)
}

/// Applies the angle-shaping bounce to a velocity: reflect the horizontal
/// component, re-derive the vertical one from the hit offset, normalize,
/// and rescale to the preserved pre-bounce speed.
pub fn paddle_bounce(v: Vec2, ball_y: i64, paddle_y: i64, paddle_h: i64, aggr: i64) -> (r: Vec2)
    requires
        v@.x != 0,
        vel_in_range(v@, BOUNCE_VEL_LIMIT as int),
        in_coord(ball_y as int),
        in_coord(paddle_y as int),
        1 <= paddle_h <= COORD_LIMIT,
        1 <= aggr <= AGGR_LIMIT,
    ensures
        r@ == bounced_vel(v@, ball_y as int, paddle_y as int, paddle_h as int, aggr as int),
        iabs(r@.x) <= isqrt_spec(speed_sq(v@)),
        iabs(r@.y) <= isqrt_spec(speed_sq(v@)),
{
    let vx = v.x as i128;
    let vy = v.y as i128;
    assert(vx * vx + vy * vy <= 0x800000000000i128 && vx * vx >= 1 && vy * vy >= 0)
        by (nonlinear_arith)
        requires
            -0x800000 <= vx <= 0x800000,
            -0x800000 <= vy <= 0x800000,
            vx != 0,
    ;
    let speed2: i128 = vx * vx + vy * vy;
    assert(speed2 as int == speed_sq(v@));
    let s_u: u64 = isqrt(speed2 as u128);
    proof {
        lemma_isqrt_spec(speed2 as int);
        assert(sq(s_u as int) == (s_u as int) * (s_u as int));
        assert((speed2 as int) < 16777217int * 16777217int) by (nonlinear_arith)
            requires
                speed2 <= 0x800000000000i128,
        ;
        lemma_abs_le_of_sq_le(s_u as int, speed2 as int, 16777216int);
    }
    let s: i128 = s_u as i128;
    let rx: i128 = -vx;
    let dy: i64 = paddle_y - ball_y;
    assert(-0x100000800000i128 <= vx * (dy as i128) <= 0x100000800000i128) by (nonlinear_arith)
        requires
            -0x800000 <= vx <= 0x800000,
            -0x200001 <= (dy as i128) <= 0x200001,
    ;
    let shaped: i128 = vx * (dy as i128);
    assert(-0x40000200000000i128 <= shaped * (aggr as i128) <= 0x40000200000000i128)
        by (nonlinear_arith)
        requires
            -0x100000800000i128 <= shaped <= 0x100000800000i128,
            1 <= (aggr as i128) <= 0x400,
    ;
    let num: i128 = shaped * (aggr as i128);
    let ry: i128 = trunc_div_i128(num, paddle_h as i128);
    proof {
        assert(iabs(num as int) <= 18014407099416576int * (paddle_h as int)) by (nonlinear_arith)
            requires
                iabs(num as int) <= 18014407099416576int,
                paddle_h >= 1,
        ;
        lemma_trunc_div_abs_le(num as int, paddle_h as int, 18014407099416576int);
    }
    assert(rx * rx >= 1 && rx * rx <= 0x400000000000i128 && 0 <= ry * ry
        <= 0x40000200000000i128 * 0x40000200000000i128) by (nonlinear_arith)
        requires
            rx != 0,
            -0x800000 <= rx <= 0x800000,
            -0x40000200000000i128 <= ry <= 0x40000200000000i128,
    ;
    let nrm2: i128 = rx * rx + ry * ry;
    assert(nrm2 as int == sq(rx as int) + sq(ry as int));
    let n_u: u64 = isqrt(nrm2 as u128);
    proof {
        lemma_isqrt_spec(nrm2 as int);
        if n_u == 0 {
            assert(sq(0int + 1) == 1);
            assert(false);
        }
        assert(sq(n_u as int + 1) == (n_u as int + 1) * (n_u as int + 1));
        assert((rx as int) * (rx as int) <= nrm2 as int);
        assert((ry as int) * (ry as int) <= nrm2 as int);
        lemma_abs_le_of_sq_le(rx as int, nrm2 as int, n_u as int);
        lemma_abs_le_of_sq_le(ry as int, nrm2 as int, n_u as int);
    }
    let n: i128 = n_u as i128;
    assert(-(0x1000000i128 * n) <= rx * s <= 0x1000000i128 * n && -(0x1000000i128 * n) <= ry * s
        <= 0x1000000i128 * n) by (nonlinear_arith)
        requires
            iabs(rx as int) <= n as int,
            iabs(ry as int) <= n as int,
            0 <= s <= 0x1000000,
            1 <= n,
    ;
    let wx: i128 = trunc_div_i128(rx * s, n);
    let wy: i128 = trunc_div_i128(ry * s, n);
    proof {
        assert(iabs((rx * s) as int) <= (s as int) * (n as int) && iabs((ry * s) as int) <= (
        s as int) * (n as int)) by (nonlinear_arith)
            requires
                iabs(rx as int) <= n as int,
                iabs(ry as int) <= n as int,
                0 <= s,
                1 <= n,
                (rx * s) as int == (rx as int) * (s as int),
                (ry * s) as int == (ry as int) * (s as int),
        ;
        lemma_trunc_div_abs_le((rx * s) as int, n as int, s as int);
        lemma_trunc_div_abs_le((ry * s) as int, n as int, s as int);
    }
    Vec2 { x: wx as i64, y: wy as i64 }
}

/// A bounced velocity stays within twice the bound that held of the
/// incoming one: the preserved speed of a vector whose components are
/// bounded by `limit` is below `2 * limit`, and no resulting component
/// exceeds that speed.
pub proof fn lemma_bounced_vel_in_range(
    v: Vec2V,
    ball_y: int,
    paddle_y: int,
    paddle_h: int,
    aggr: int,
    limit: int,
)
    requires
        v.x != 0,
        vel_in_range(v, limit),
        1 <= limit <= 4194304,
        paddle_h >= 1,
    ensures
        vel_in_range(bounced_vel(v, ball_y, paddle_y, paddle_h, aggr), 2 * limit),
{
    let s = isqrt_spec(speed_sq(v));
    let rx = -v.x;
    let ry = raw_bounce_vy(v.x, ball_y, paddle_y, paddle_h, aggr);
    let nrm2 = sq(rx) + sq(ry);
    let n = isqrt_spec(nrm2);
    assert(sq(v.x) >= 0 && sq(v.y) >= 0 && sq(rx) >= 1 && sq(ry) >= 0 && speed_sq(v)
        < (2 * limit) * (2 * limit)) by (nonlinear_arith)
        requires
            speed_sq(v) == sq(v.x) + sq(v.y),
            sq(v.x) == v.x * v.x,
            sq(v.y) == v.y * v.y,
            sq(rx) == rx * rx,
            sq(ry) == ry * ry,
            rx == -v.x,
            v.x != 0,
            iabs(v.x) <= limit,
            iabs(v.y) <= limit,
            limit >= 1,
    ;
    lemma_isqrt_spec(speed_sq(v));
    assert(sq(s) == s * s);
    lemma_abs_le_of_sq_le(s, speed_sq(v), 2 * limit - 1);
    lemma_isqrt_spec(nrm2);
    if n == 0 {
        assert(sq(0int + 1) == 1);
        assert(false);
    }
    assert(sq(n + 1) == (n + 1) * (n + 1));
    assert(sq(rx) == rx * rx && sq(ry) == ry * ry);
    lemma_abs_le_of_sq_le(rx, nrm2, n);
    lemma_abs_le_of_sq_le(ry, nrm2, n);
    assert(iabs(rx * s) <= s * n && iabs(ry * s) <= s * n) by (nonlinear_arith)
        requires
            iabs(rx) <= n,
            iabs(ry) <= n,
            s >= 0,
            n >= 1,
    ;
    lemma_trunc_div_abs_le(rx * s, n, s);
    lemma_trunc_div_abs_le(ry * s, n, s);
}

/// Moves the ball by its velocity, then, for the left paddle and then the
/// right, reflects and reshapes the velocity on AABB overlap with the
/// already-moved ball.
pub fn move_ball(world: &mut World, cfg: &Config)
    requires
        ball_step_req(old(world)@, cfg@),
    ensures
        final(world)@ == ball_step(old(world)@, cfg@),
{
    world.ball.body.pos.x = world.ball.body.pos.x + world.ball.vel.x;
    world.ball.body.pos.y = world.ball.body.pos.y + world.ball.vel.y;
    assert(world@.ball =~= moved_ball(old(world)@.ball));
    if aabb_overlap(&world.left_paddle, &world.ball.body) {
        let bounced = paddle_bounce(
            world.ball.vel,
            world.ball.body.pos.y,
            world.left_paddle.pos.y,
            world.left_paddle.scale.y,
            cfg.angle_aggressiveness,
        );
        world.ball.vel = bounced;
        proof {
            lemma_bounced_vel_in_range(
                moved_ball(old(world)@.ball).vel,
                moved_ball(old(world)@.ball).body.pos.y,
                old(world)@.left_paddle.pos.y,
                old(world)@.left_paddle.scale.y,
                cfg@.angle_aggressiveness,
                VEL_LIMIT as int,
            );
        }
    }
    assert(world@.ball.vel == vel_after_left(old(world)@, cfg@));
    if aabb_overlap(&world.right_paddle, &world.ball.body) {
        let bounced = paddle_bounce(
            world.ball.vel,
            world.ball.body.pos.y,
            world.right_paddle.pos.y,
            world.right_paddle.scale.y,
            cfg.angle_aggressiveness,
        );
        world.ball.vel = bounced;
    }
    assert(world@.ball.vel == vel_after_paddles(old(world)@, cfg@));
    assert(world@ =~= ball_step(old(world)@, cfg@));
}

/// A ball step keeps the world geometrically well-formed and its velocity
/// within the bound that the wall bouncer accepts.
pub proof fn lemma_ball_step_in_range(w: WorldV, cfg: ConfigV)
    requires
        ball_step_req(w, cfg),
    ensures
        world_in_range(ball_step(w, cfg)),
        vel_in_range(ball_step(w, cfg).ball.vel, BOUNCE_VEL_LIMIT as int),
{
    let mb = moved_ball(w.ball);
    if bodies_overlap(w.left_paddle, mb.body) {
        lemma_bounced_vel_in_range(
            mb.vel,
            mb.body.pos.y,
            w.left_paddle.pos.y,
            w.left_paddle.scale.y,
            cfg.angle_aggressiveness,
            VEL_LIMIT as int,
        );
    }
    if bodies_overlap(w.right_paddle, mb.body) {
        lemma_bounced_vel_in_range(
            vel_after_left(w, cfg),
            mb.body.pos.y,
            w.right_paddle.pos.y,
            w.right_paddle.scale.y,
            cfg.angle_aggressiveness,
            2 * VEL_LIMIT as int,
        );
    }
}

/// Speed conservation across a paddle bounce, up to integer rounding: with
/// `s` the pre-bounce speed and `n` the magnitude of the raw reflected
/// vector, the squared post-bounce speed lies within a band around `sq(s)`
/// that tightens as `n` grows — exactly the rounding slack of scaling by
/// `s / n` in integers.
pub proof fn lemma_bounce_speed_conservation(
    v: Vec2V,
    ball_y: int,
    paddle_y: int,
    paddle_h: int,
    aggr: int,
)
    requires
        v.x != 0,
        paddle_h >= 1,
    ensures
        ({
            let w = bounced_vel(v, ball_y, paddle_y, paddle_h, aggr);
            let s = isqrt_spec(speed_sq(v));
            let n = isqrt_spec(sq(-v.x) + sq(raw_bounce_vy(v.x, ball_y, paddle_y, paddle_h, aggr)));
            &&& speed_sq(w) * sq(n) <= sq(s) * (sq(n) + 2 * n)
            &&& sq(n) * (sq(s) - 4 * s) <= speed_sq(w) * sq(n)
        }),
{
    let s = isqrt_spec(speed_sq(v));
    let rx = -v.x;
    let ry = raw_bounce_vy(v.x, ball_y, paddle_y, paddle_h, aggr);
    let nrm2 = sq(rx) + sq(ry);
    let n = isqrt_spec(nrm2);
    let wx = trunc_div(rx * s, n);
    let wy = trunc_div(ry * s, n);
    let w = bounced_vel(v, ball_y, paddle_y, paddle_h, aggr);
    assert(w.x == wx && w.y == wy);
    assert(speed_sq(w) == sq(wx) + sq(wy));

    assert(speed_sq(v) >= 0 && sq(rx) >= 1 && sq(ry) >= 0) by (nonlinear_arith)
        requires
            speed_sq(v) == sq(v.x) + sq(v.y),
            sq(v.x) == v.x * v.x,
            sq(v.y) == v.y * v.y,
            sq(rx) == rx * rx,
            sq(ry) == ry * ry,
            rx == -v.x,
            v.x != 0,
    ;
    lemma_isqrt_spec(speed_sq(v));
    lemma_isqrt_spec(nrm2);
    if n == 0 {
        assert(sq(0int + 1) == 1);
        assert(false);
    }
    assert(sq(n + 1) == (n + 1) * (n + 1));
    assert(sq(rx) == rx * rx && sq(ry) == ry * ry);
    lemma_abs_le_of_sq_le(rx, nrm2, n);
    lemma_abs_le_of_sq_le(ry, nrm2, n);
    lemma_trunc_div_sq_bounds(rx * s, n);
    lemma_trunc_div_sq_bounds(ry * s, n);

    // upper bound: the scaled squares sum to the raw norm times sq(s),
    // and the raw norm is below sq(n) + 2n + 1
    assert(sq(rx * s) + sq(ry * s) == nrm2 * sq(s)) by (nonlinear_arith)
        requires
            sq(rx * s) == (rx * s) * (rx * s),
            sq(ry * s) == (ry * s) * (ry * s),
            sq(s) == s * s,
            nrm2 == rx * rx + ry * ry,
            sq(rx) == rx * rx,
            sq(ry) == ry * ry,
    ;
    assert(sq(n + 1) == sq(n) + 2 * n + 1) by (nonlinear_arith)
        requires
            sq(n + 1) == (n + 1) * (n + 1),
            sq(n) == n * n,
    ;
    assert(nrm2 * sq(s) <= (sq(n) + 2 * n) * sq(s)) by (nonlinear_arith)
        requires
            nrm2 <= sq(n) + 2 * n,
            sq(s) == s * s,
    ;
    assert(speed_sq(w) * sq(n) == sq(wx) * sq(n) + sq(wy) * sq(n)) by (nonlinear_arith)
        requires
            speed_sq(w) == sq(wx) + sq(wy),
    ;
    assert(speed_sq(w) * sq(n) <= sq(s) * (sq(n) + 2 * n)) by (nonlinear_arith)
        requires
            speed_sq(w) * sq(n) == sq(wx) * sq(n) + sq(wy) * sq(n),
            sq(wx) * sq(n) <= sq(rx * s),
            sq(wy) * sq(n) <= sq(ry * s),
            sq(rx * s) + sq(ry * s) == nrm2 * sq(s),
            nrm2 * sq(s) <= (sq(n) + 2 * n) * sq(s),
    ;

    // lower bound: each truncation loses at most 2 * |raw component| * s * n
    // of the square, and each |raw component| is at most n
    assert(iabs(rx * s) * n <= (n * n) * s && iabs(ry * s) * n <= (n * n) * s)
        by (nonlinear_arith)
        requires
            iabs(rx) <= n,
            iabs(ry) <= n,
            s >= 0,
            n >= 1,
    ;
    assert(nrm2 * sq(s) >= sq(n) * sq(s)) by (nonlinear_arith)
        requires
            nrm2 >= sq(n),
            sq(s) == s * s,
            sq(n) == n * n,
    ;
    assert(sq(n) * (sq(s) - 4 * s) <= speed_sq(w) * sq(n)) by (nonlinear_arith)
        requires
            speed_sq(w) * sq(n) == sq(wx) * sq(n) + sq(wy) * sq(n),
            sq(rx * s) - 2 * iabs(rx * s) * n <= sq(wx) * sq(n),
            sq(ry * s) - 2 * iabs(ry * s) * n <= sq(wy) * sq(n),
            sq(rx * s) + sq(ry * s) == nrm2 * sq(s),
            nrm2 * sq(s) >= sq(n) * sq(s),
            iabs(rx * s) * n <= (n * n) * s,
            iabs(ry * s) * n <= (n * n) * s,
            sq(n) == n * n,
            sq(s) == s * s,
    ;
}

} // verus!
