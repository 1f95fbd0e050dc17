//! The short-range repulsion between two particles.
use vstd::prelude::*;
use crate::fixed::{
    abs, div_trunc, is_isqrt, isqrt, lemma_below_isqrt, lemma_tdiv_bound, sqrt_floor, tdiv,
    MICROS_PER_SECOND,
};
use crate::params::{Params, MAX_ACCEL, MAX_DELTA, MAX_RADIUS};
use crate::vec2::Vec2;

verus! {

/// Largest change of a velocity component that one pair can cause in one step.
pub const MAX_PAIR_IMPULSE: i64 = 10_000_000_000;

/// `a` per second applied over `delta` microseconds, rounded toward zero.
pub open spec fn scaled_by_time(a: int, delta: int) -> int {
    tdiv(a * delta, MICROS_PER_SECOND as int)
}

/// Linear falloff of the repulsion: `strength` at distance zero, zero at the radius.
pub open spec fn force_magnitude(dist: int, radius: int, strength: int) -> int {
    strength * (radius - dist) / radius
}

/// Velocity change, over `delta` microseconds, of the particle at the far end of the
/// displacement `(dx, dy)`: zero unless `0 < dx^2 + dy^2 < radius^2`, else directed along
/// the displacement with the falloff magnitude.
pub open spec fn pair_impulse_spec(dx: int, dy: int, params: Params, delta: int) -> (int, int) {
    let s = dx * dx + dy * dy;
    let r = params.interaction_radius as int;
    if 0 < s < r * r {
        let dist = sqrt_floor(s);
        let f = force_magnitude(dist, r, params.repulsion_strength as int);
        (scaled_by_time(tdiv(dx * f, dist), delta), scaled_by_time(tdiv(dy * f, dist), delta))
    } else {
        (0, 0)
    }
}

/// Velocity change that particle `j` causes on particle `i` in one step: `i` is pushed
/// away from `j`; a particle exerts nothing on itself.
pub open spec fn contribution(pos: Seq<Vec2>, i: int, j: int, params: Params, delta: int) -> (
    int,
    int,
) {
    if i == j {
        (0, 0)
    } else {
        let imp = pair_impulse_spec(
            pos[j].x - pos[i].x,
            pos[j].y - pos[i].y,
            params,
            delta,
        );
        (-imp.0, -imp.1)
    }
}

/// Sum of the x velocity changes that the particles listed in `m` cause on particle `i`.
pub open spec fn repulsion_x(pos: Seq<Vec2>, i: int, m: Seq<usize>, params: Params, delta: int) -> int
    decreases m.len(),
{
    if m.len() == 0 {
        0
    } else {
        repulsion_x(pos, i, m.drop_last(), params, delta) + contribution(
            pos,
            i,
            m.last() as int,
            params,
            delta,
        ).0
    }
}

/// Sum of the y velocity changes that the particles listed in `m` cause on particle `i`.
pub open spec fn repulsion_y(pos: Seq<Vec2>, i: int, m: Seq<usize>, params: Params, delta: int) -> int
    decreases m.len(),
{
    if m.len() == 0 {
        0
    } else {
        repulsion_y(pos, i, m.drop_last(), params, delta) + contribution(
            pos,
            i,
            m.last() as int,
            params,
            delta,
        ).1
    }
}

/// The impulse of a pair depends on the displacement alone and changes sign with it.
proof fn lemma_impulse_odd(dx: int, dy: int, params: Params, delta: int)
    requires
        delta >= 0,
    ensures
        pair_impulse_spec(-dx, -dy, params, delta).0 == -pair_impulse_spec(dx, dy, params, delta).0,
        pair_impulse_spec(-dx, -dy, params, delta).1 == -pair_impulse_spec(dx, dy, params, delta).1,
{
    assert((-dx) * (-dx) + (-dy) * (-dy) == dx * dx + dy * dy) by (nonlinear_arith);
    let s = dx * dx + dy * dy;
    let r = params.interaction_radius as int;
    if 0 < s < r * r {
        let dist = sqrt_floor(s);
        let f = force_magnitude(dist, r, params.repulsion_strength as int);
        assert(s >= 0) by (nonlinear_arith)
            requires
                s == dx * dx + dy * dy,
        ;
        crate::fixed::lemma_isqrt_exists(s);
        assert((-dx) * f == -(dx * f)) by (nonlinear_arith);
        assert((-dy) * f == -(dy * f)) by (nonlinear_arith);
        lemma_tdiv_bound(dx * f, dist);
        lemma_tdiv_bound(dy * f, dist);
        let qx = tdiv(dx * f, dist);
        let qy = tdiv(dy * f, dist);
        assert((-qx) * delta == -(qx * delta)) by (nonlinear_arith);
        assert((-qy) * delta == -(qy * delta)) by (nonlinear_arith);
        lemma_tdiv_bound(qx * delta, MICROS_PER_SECOND as int);
        lemma_tdiv_bound(qy * delta, MICROS_PER_SECOND as int);
    }
}

/// Repulsion is equal and opposite: the velocity change that particle `j` causes on
/// particle `i` is exactly the negation of the one that `i` causes on `j`.
pub proof fn lemma_repulsion_symmetric(pos: Seq<Vec2>, i: int, j: int, params: Params, delta: int)
    requires
        0 <= i < pos.len(),
        0 <= j < pos.len(),
        delta >= 0,
    ensures
        contribution(pos, i, j, params, delta).0 == -contribution(pos, j, i, params, delta).0,
        contribution(pos, i, j, params, delta).1 == -contribution(pos, j, i, params, delta).1,
{
    if i != j {
        let dx = pos[j].x - pos[i].x;
        let dy = pos[j].y - pos[i].y;
        lemma_impulse_odd(dx, dy, params, delta);
        assert(pos[i].x - pos[j].x == -dx);
        assert(pos[i].y - pos[j].y == -dy);
    }
}

/// A particle exerts no force on itself: its own entry in a bucket list adds nothing to
/// the repulsion it receives.
pub proof fn lemma_no_self_interaction(
    pos: Seq<Vec2>,
    i: int,
    m: Seq<usize>,
    params: Params,
    delta: int,
)
    requires
        0 <= i < pos.len(),
        i <= usize::MAX,
    ensures
        contribution(pos, i, i, params, delta) == (0int, 0int),
        repulsion_x(pos, i, m.push(i as usize), params, delta) == repulsion_x(
            pos,
            i,
            m,
            params,
            delta,
        ),
        repulsion_y(pos, i, m.push(i as usize), params, delta) == repulsion_y(
            pos,
            i,
            m,
            params,
            delta,
        ),
{
    assert(m.push(i as usize).drop_last() == m);
}

/// Largest coordinate difference handed to [`pair_impulse`].
pub const MAX_DISPLACEMENT: i64 = 4_000_000_000_000_000;

/// The vector from `first` to `second`.
pub fn particle_distance(first: Vec2, second: Vec2) -> (r: Vec2)
    requires
        abs(first.x as int) <= MAX_DISPLACEMENT / 2,
        abs(first.y as int) <= MAX_DISPLACEMENT / 2,
        abs(second.x as int) <= MAX_DISPLACEMENT / 2,
        abs(second.y as int) <= MAX_DISPLACEMENT / 2,
    ensures
        r.x == second.x - first.x,
        r.y == second.y - first.y,
{
    second.sub(first)
}

/// Repulsion magnitude at distance `dist`.
pub fn falloff_function(params: &Params, dist: i64) -> (r: i64)
    requires
        params.wf(),
        0 <= dist <= params.interaction_radius,
    ensures
        r == force_magnitude(
            dist as int,
            params.interaction_radius as int,
            params.repulsion_strength as int,
        ),
        0 <= r <= params.repulsion_strength,
{
    let radius = params.interaction_radius;
    let strength = params.repulsion_strength;
    assert(0 <= strength * (radius - dist) <= strength * radius) by (nonlinear_arith)
        requires
            0 <= strength,
            0 <= radius - dist <= radius,
    ;
    assert(strength * radius <= 1_000_000_000_000_000_000) by (nonlinear_arith)
        requires
            0 <= strength <= MAX_ACCEL,
            0 <= radius <= MAX_RADIUS,
    ;
    assert(strength * (radius - dist) / (radius as int) <= strength) by (nonlinear_arith)
        requires
            0 <= strength * (radius - dist) <= strength * radius,
            radius > 0,
    ;
    strength * (radius - dist) / radius
}

pub proof fn lemma_scaled_bound(a: int, delta: int)
    requires
        1 <= delta <= MAX_DELTA,
    ensures
        abs(scaled_by_time(a, delta)) <= abs(a) * 10,
{
    assert(abs(a * delta) <= abs(a) * 10_000_000) by (nonlinear_arith)
        requires
            1 <= delta <= 10_000_000,
    ;
    lemma_tdiv_bound(a * delta, MICROS_PER_SECOND as int);
    assert(abs(a * delta) / 1_000_000 <= abs(a) * 10) by (nonlinear_arith)
        requires
            0 <= abs(a * delta) <= abs(a) * 10_000_000,
    ;
}

/// `a` per second applied over `delta` microseconds.
pub fn scale_by_time(a: i64, delta: u64) -> (r: i64)
    requires
        1 <= delta <= MAX_DELTA,
        abs(a as int) <= 100_000_000_000_000_000,
    ensures
        r == scaled_by_time(a as int, delta as int),
        abs(r as int) <= abs(a as int) * 10,
{
    assert(abs(a * delta) <= abs(a as int) * 10_000_000) by (nonlinear_arith)
        requires
            1 <= delta <= 10_000_000,
    ;
    proof {
        lemma_scaled_bound(a as int, delta as int);
    }
    div_trunc((a as i128) * (delta as i128), MICROS_PER_SECOND as i128) as i64
}

/// Velocity change of the particle at the far end of the displacement `d`.
pub fn pair_impulse(d: Vec2, params: &Params, delta: u64) -> (r: Vec2)
    requires
        params.wf(),
        1 <= delta <= MAX_DELTA,
        abs(d.x as int) <= MAX_DISPLACEMENT,
        abs(d.y as int) <= MAX_DISPLACEMENT,
    ensures
        r.x == pair_impulse_spec(d.x as int, d.y as int, *params, delta as int).0,
        r.y == pair_impulse_spec(d.x as int, d.y as int, *params, delta as int).1,
        abs(r.x as int) <= MAX_PAIR_IMPULSE,
        abs(r.y as int) <= MAX_PAIR_IMPULSE,
{
    let radius = params.interaction_radius;
    let ax: i64 = if d.x < 0 {
        -d.x
    } else {
        d.x
    };
    let ay: i64 = if d.y < 0 {
        -d.y
    } else {
        d.y
    };
    if ax >= radius || ay >= radius {
        assert(d.x * d.x + d.y * d.y >= radius * radius) by (nonlinear_arith)
            requires
                ax >= radius || ay >= radius,
                ax == abs(d.x as int),
                ay == abs(d.y as int),
                radius > 0,
        ;
        return Vec2 { x: 0, y: 0 };
    }
    assert(0 <= d.x * d.x < radius * radius && 0 <= d.y * d.y < radius * radius)
        by (nonlinear_arith)
        requires
            ax < radius,
            ay < radius,
            ax == abs(d.x as int),
            ay == abs(d.y as int),
    ;
    assert(radius * radius <= 1_000_000_000_000_000_000) by (nonlinear_arith)
        requires
            0 < radius <= MAX_RADIUS,
    ;
    let s: i64 = d.x * d.x + d.y * d.y;
    if s == 0 || s >= radius * radius {
        return Vec2 { x: 0, y: 0 };
    }
    let root = isqrt(s as u64);
    assert(root < radius) by (nonlinear_arith)
        requires
            root * root <= s,
            s < radius * radius,
            radius > 0,
    ;
    let dist = root as i64;
    proof {
        lemma_below_isqrt(d.x as int, s as int, dist as int);
        lemma_below_isqrt(d.y as int, s as int, dist as int);
        assert(dist >= 1) by (nonlinear_arith)
            requires
                s < (dist + 1) * (dist + 1),
                s >= 1,
                dist >= 0,
        ;
    }
    assert(dist < radius) by (nonlinear_arith)
        requires
            dist * dist <= s,
            s < radius * radius,
            dist >= 0,
            radius > 0,
    ;
    let f = falloff_function(params, dist);
    assert(abs(d.x * f) <= dist * f && abs(d.y * f) <= dist * f) by (nonlinear_arith)
        requires
            abs(d.x as int) <= dist,
            abs(d.y as int) <= dist,
            f >= 0,
    ;
    assert(dist * f <= 1_000_000_000_000_000_000) by (nonlinear_arith)
        requires
            0 < dist <= MAX_RADIUS,
            0 <= f <= MAX_ACCEL,
    ;
    let qx = div_trunc((d.x * f) as i128, dist as i128);
    let qy = div_trunc((d.y * f) as i128, dist as i128);
    proof {
        lemma_tdiv_bound(d.x * f, dist as int);
        lemma_tdiv_bound(d.y * f, dist as int);
        assert(abs(d.x * f) / (dist as int) <= f) by (nonlinear_arith)
            requires
                0 <= abs(d.x * f) <= dist * f,
                dist > 0,
        ;
        assert(abs(d.y * f) / (dist as int) <= f) by (nonlinear_arith)
            requires
                0 <= abs(d.y * f) <= dist * f,
                dist > 0,
        ;
    }
    let x = scale_by_time(qx as i64, delta);
    let y = scale_by_time(qy as i64, delta);
    Vec2 { x, y }
}

} // verus!
