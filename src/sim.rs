//! The particle set and one step of the simulation.
use vstd::prelude::*;
use crate::fixed::{abs, tdiv, UNIT};
use crate::forces::{
    pair_impulse, particle_distance, repulsion_x, repulsion_y, scale_by_time, scaled_by_time,
    MAX_PAIR_IMPULSE,
};
use crate::params::{Params, MAX_COORD, MAX_DELTA, MAX_PARTICLES, MAX_SPEED};
use crate::sectors::{bucket_of, lemma_partition_complete, members, sector_of, update_sectors, Bounds};
use crate::random::random_in;
use crate::vec2::{deflection_of, rotate_pair, Deflection, Vec2};

verus! {

/// Why a construction or a step was rejected. Nothing is changed when one is returned.
#[derive(Clone, Copy, Debug, PartialEq, Eq, Structural)]
pub enum SimError {
    /// The time step is zero or longer than `MAX_DELTA` microseconds.
    InvalidDelta,
    /// The arena has zero width or zero height.
    InvalidBounds,
    /// The particle count is zero or above `MAX_PARTICLES`.
    InvalidParticleCount,
    /// The constants lie outside the supported ranges.
    InvalidParams,
    /// Positions and velocities differ in number.
    LengthMismatch,
    /// A position component lies beyond `MAX_COORD`.
    PositionOutOfRange,
    /// The deflection angles are not two per particle.
    DeflectionCount,
    /// A deflection angle lies outside `[-max_deflection, max_deflection]`.
    InvalidDeflection,
    /// A velocity component lies beyond `MAX_SPEED`.
    SpeedOutOfRange,
}

/// The mathematical state of a simulation.
pub struct SimState {
    pub positions: Seq<Vec2>,
    pub velocities: Seq<Vec2>,
    pub params: Params,
}

/// A set of particles that move under gravity and short-range repulsion and bounce off
/// the walls of the arena. Particle `i` is entry `i` of both the positions and the
/// velocities for the whole life of the simulation.
#[derive(Clone, Debug)]
pub struct FluidSim {
    positions: Vec<Vec2>,
    velocities: Vec<Vec2>,
    params: Params,
}

impl View for FluidSim {
    type V = SimState;

    closed spec fn view(&self) -> SimState {
        SimState {
            positions: self.positions@,
            velocities: self.velocities@,
            params: self.params,
        }
    }
}

pub open spec fn coord_in_range(p: Vec2) -> bool {
    abs(p.x as int) <= MAX_COORD && abs(p.y as int) <= MAX_COORD
}

pub open spec fn speed_in_range(v: Vec2) -> bool {
    abs(v.x as int) <= MAX_SPEED && abs(v.y as int) <= MAX_SPEED
}

/// The particle set has a fixed positive size, one velocity per position, and valid
/// constants.
pub open spec fn state_wf(s: SimState) -> bool {
    &&& s.params.wf()
    &&& 1 <= s.positions.len() <= MAX_PARTICLES
    &&& s.velocities.len() == s.positions.len()
    &&& forall|i: int| 0 <= i < s.positions.len() ==> coord_in_range(#[trigger] s.positions[i])
}

pub open spec fn speeds_in_range(s: SimState) -> bool {
    forall|i: int| 0 <= i < s.velocities.len() ==> speed_in_range(#[trigger] s.velocities[i])
}

pub open spec fn delta_valid(delta: u64) -> bool {
    1 <= delta <= MAX_DELTA
}

/// Every angle lies in `[-max, max]`.
pub open spec fn angles_valid(angles: Seq<i64>, max: int) -> bool {
    forall|k: int| 0 <= k < angles.len() ==> -max <= #[trigger] angles[k] <= max
}

/// The error a step reports, if any, in the order in which the inputs are checked.
pub open spec fn step_error(s: SimState, delta: u64, bounds: Bounds, angles: Seq<i64>) -> Option<
    SimError,
> {
    if !delta_valid(delta) {
        Some(SimError::InvalidDelta)
    } else if !bounds.valid() {
        Some(SimError::InvalidBounds)
    } else if angles.len() != 2 * s.positions.len() {
        Some(SimError::DeflectionCount)
    } else if !angles_valid(angles, s.params.max_deflection as int) {
        Some(SimError::InvalidDeflection)
    } else if !speeds_in_range(s) {
        Some(SimError::SpeedOutOfRange)
    } else {
        None
    }
}

/// A velocity component after a bounce: negated and scaled by the decay factor.
pub open spec fn bounce_component(c: int, params: Params) -> int {
    -tdiv(c * params.decay_num, params.decay_den as int)
}

/// Velocity after touching a wall of the x axis: rotated by `d`, then the x component bounced.
pub open spec fn wall_x(v: (int, int), d: Deflection, params: Params) -> (int, int) {
    let r = rotate_pair(v, d);
    (bounce_component(r.0, params), r.1)
}

/// Velocity after touching a wall of the y axis: rotated by `d`, then the y component bounced.
pub open spec fn wall_y(v: (int, int), d: Deflection, params: Params) -> (int, int) {
    let r = rotate_pair(v, d);
    (r.0, bounce_component(r.1, params))
}

pub open spec fn outside(c: int, max: int) -> bool {
    c < 0 || c > max
}

pub open spec fn clamp_coord(c: int, max: int) -> int {
    if c < 0 {
        0
    } else if c > max {
        max
    } else {
        c
    }
}

/// Velocity of particle `i` after gravity and the repulsion of the other particles of its
/// bucket.
pub open spec fn velocity_before_walls(s: SimState, delta: int, bounds: Bounds, i: int) -> (
    int,
    int,
) {
    let p = s.positions[i];
    let v = s.velocities[i];
    let m = members(s.positions, bounds, s.params.grid, bucket_of(p, bounds, s.params.grid));
    (
        v.x + repulsion_x(s.positions, i, m, s.params, delta),
        v.y + scaled_by_time(s.params.gravity as int, delta) + repulsion_y(
            s.positions,
            i,
            m,
            s.params,
            delta,
        ),
    )
}

/// Position of particle `i` after moving with its new velocity, before the walls.
pub open spec fn moved_position(s: SimState, delta: int, bounds: Bounds, i: int) -> (int, int) {
    let v = velocity_before_walls(s, delta, bounds, i);
    let p = s.positions[i];
    (p.x + scaled_by_time(v.0, delta), p.y + scaled_by_time(v.1, delta))
}

/// Position of particle `i` after the step: the moved position clamped into the arena.
pub open spec fn stepped_position(s: SimState, delta: int, bounds: Bounds, i: int) -> (int, int) {
    let q = moved_position(s, delta, bounds, i);
    (clamp_coord(q.0, bounds.max_x()), clamp_coord(q.1, bounds.max_y()))
}

/// Velocity of particle `i` after the step; it is rotated through `angles[2i]` at an x
/// wall and through `angles[2i+1]` at a y wall.
pub open spec fn stepped_velocity(
    s: SimState,
    delta: int,
    bounds: Bounds,
    angles: Seq<i64>,
    i: int,
) -> (int, int) {
    wall_velocity(
        s,
        delta,
        bounds,
        deflection_of(angles[2 * i] as int),
        deflection_of(angles[2 * i + 1] as int),
        i,
    )
}

/// `t` is what one step of `delta` microseconds within `bounds` makes of `s`, with the
/// deflection angles `angles`.
pub open spec fn is_step(s: SimState, t: SimState, delta: u64, bounds: Bounds, angles: Seq<i64>) -> bool {
    &&& t.params == s.params
    &&& t.positions.len() == s.positions.len()
    &&& t.velocities.len() == s.velocities.len()
    &&& forall|i: int|
        0 <= i < s.positions.len() ==> {
            &&& (#[trigger] t.positions[i]).x == stepped_position(s, delta as int, bounds, i).0
            &&& t.positions[i].y == stepped_position(s, delta as int, bounds, i).1
            &&& t.velocities[i].x == stepped_velocity(s, delta as int, bounds, angles, i).0
            &&& t.velocities[i].y == stepped_velocity(s, delta as int, bounds, angles, i).1
        }
}

/// A velocity component after a bounce.
pub fn bounce(c: i64, params: &Params) -> (r: i64)
    requires
        params.wf(),
        abs(c as int) <= 100_000_000_000_000_000,
    ensures
        r == bounce_component(c as int, *params),
        abs(r as int) <= abs(c as int),
{
    let num = params.decay_num;
    let den = params.decay_den;
    let a: i64 = if c < 0 {
        -c
    } else {
        c
    };
    assert(0 <= a * num <= a * 1_000_000) by (nonlinear_arith)
        requires
            0 <= a,
            0 <= num <= 1_000_000,
    ;
    assert(a * num / (den as int) <= a) by (nonlinear_arith)
        requires
            0 <= a * num,
            0 <= num < den,
            a >= 0,
    ;
    let q: i64 = ((a as i128) * (num as i128) / (den as i128)) as i64;
    proof {
        if c < 0 {
            assert(c * num == -(a * num)) by (nonlinear_arith)
                requires
                    a == -c,
            ;
        } else {
            assert(c * num == a * num);
        }
    }
    if c < 0 {
        q
    } else {
        -q
    }
}

/// A bounce takes energy away: a non-zero velocity component along the wall's axis comes
/// out strictly smaller in magnitude, and a zero one stays zero.
pub proof fn lemma_bounce_dissipates(c: int, params: Params)
    requires
        params.wf(),
    ensures
        c != 0 ==> abs(bounce_component(c, params)) < abs(c),
        c == 0 ==> bounce_component(c, params) == 0,
{
    let num = params.decay_num as int;
    let den = params.decay_den as int;
    assert(abs(c * num) == abs(c) * num) by (nonlinear_arith)
        requires
            num >= 0,
    ;
    crate::fixed::lemma_tdiv_bound(c * num, den);
    if c != 0 {
        assert(abs(c) * num / den < abs(c)) by (nonlinear_arith)
            requires
                abs(c) > 0,
                0 <= num < den,
        ;
    }
}

/// Sum of the velocity changes that the particles listed in `m` cause on particle `i`.
fn repulsion_on(
    positions: &Vec<Vec2>,
    i: usize,
    m: &Vec<usize>,
    params: &Params,
    delta: u64,
) -> (r: Vec2)
    requires
        params.wf(),
        delta_valid(delta),
        i < positions@.len(),
        m@.len() <= MAX_PARTICLES,
        forall|k: int| 0 <= k < m@.len() ==> #[trigger] m@[k] < positions@.len(),
        forall|k: int| 0 <= k < positions@.len() ==> coord_in_range(#[trigger] positions@[k]),
    ensures
        r.x == repulsion_x(positions@, i as int, m@, *params, delta as int),
        r.y == repulsion_y(positions@, i as int, m@, *params, delta as int),
        abs(r.x as int) <= m@.len() * MAX_PAIR_IMPULSE,
        abs(r.y as int) <= m@.len() * MAX_PAIR_IMPULSE,
{
    let mut ax: i64 = 0;
    let mut ay: i64 = 0;
    let mut k: usize = 0;
    while k < m.len()
        invariant
            params.wf(),
            delta_valid(delta),
            i < positions@.len(),
            k <= m@.len() <= MAX_PARTICLES,
            forall|q: int| 0 <= q < m@.len() ==> #[trigger] m@[q] < positions@.len(),
            forall|q: int| 0 <= q < positions@.len() ==> coord_in_range(#[trigger] positions@[q]),
            ax == repulsion_x(positions@, i as int, m@.take(k as int), *params, delta as int),
            ay == repulsion_y(positions@, i as int, m@.take(k as int), *params, delta as int),
            abs(ax as int) <= k * MAX_PAIR_IMPULSE,
            abs(ay as int) <= k * MAX_PAIR_IMPULSE,
        decreases m@.len() - k,
    {
        let j = m[k];
        assert(m@.take(k + 1).drop_last() =~= m@.take(k as int));
        assert(m@.take(k + 1).last() == j);
        assert((k + 1) * MAX_PAIR_IMPULSE <= 10_000_000_000_000_000) by (nonlinear_arith)
            requires
                k + 1 <= 1_000_000,
        ;
        if j != i {
            let d = particle_distance(positions[i], positions[j]);
            let imp = pair_impulse(d, params, delta);
            ax = ax - imp.x;
            ay = ay - imp.y;
        }
        k = k + 1;
    }
    assert(m@.take(m@.len() as int) =~= m@);
    Vec2 { x: ax, y: ay }
}

impl FluidSim {
    pub open spec fn wf(&self) -> bool {
        state_wf(self@)
    }

    /// New position and velocity of particle `i`.
    #[verifier::rlimit(40)]
    fn step_particle(
        &self,
        i: usize,
        buckets: &Vec<Vec<usize>>,
        delta: u64,
        bounds: Bounds,
        gravity_dv: i64,
        dx: Deflection,
        dy: Deflection,
    ) -> (r: (Vec2, Vec2))
        requires
            self.wf(),
            speeds_in_range(self@),
            delta_valid(delta),
            bounds.valid(),
            dx.wf(),
            dy.wf(),
            i < self@.positions.len(),
            gravity_dv == scaled_by_time(self@.params.gravity as int, delta as int),
            buckets@.len() == self@.params.grid.num_buckets(),
            forall|b: int|
                0 <= b < self@.params.grid.num_buckets() ==> #[trigger] buckets@[b]@ == members(
                    self@.positions,
                    bounds,
                    self@.params.grid,
                    b,
                ),
        ensures
            r.0.x == stepped_position(self@, delta as int, bounds, i as int).0,
            r.0.y == stepped_position(self@, delta as int, bounds, i as int).1,
            r.1.x == wall_velocity(self@, delta as int, bounds, dx, dy, i as int).0,
            r.1.y == wall_velocity(self@, delta as int, bounds, dx, dy, i as int).1,
            0 <= r.0.x <= bounds.max_x(),
            0 <= r.0.y <= bounds.max_y(),
    {
        let ghost s = self@;
        let grid = self.params.grid;
        let p = self.positions[i];
        let v = self.velocities[i];
        let b = sector_of(p, bounds, grid);
        proof {
            lemma_partition_complete(s.positions, bounds, grid);
        }
        let rep = repulsion_on(&self.positions, i, &buckets[b], &self.params, delta);
        assert(buckets@[b as int]@.len() * MAX_PAIR_IMPULSE <= 10_000_000_000_000_000)
            by (nonlinear_arith)
            requires
                buckets@[b as int]@.len() <= 1_000_000,
        ;
        proof {
            crate::forces::lemma_scaled_bound(s.params.gravity as int, delta as int);
        }
        let vx: i64 = v.x + rep.x;
        let vy: i64 = v.y + gravity_dv + rep.y;
        let mx = scale_by_time(vx, delta);
        let my = scale_by_time(vy, delta);
        let px: i64 = p.x + mx;
        let py: i64 = p.y + my;
        let max_x: i64 = (bounds.width as i64) * UNIT;
        let max_y: i64 = (bounds.height as i64) * UNIT;
        let mut vel = Vec2 { x: vx, y: vy };
        let mut x = px;
        if px < 0 || px > max_x {
            x = if px < 0 {
                0
            } else {
                max_x
            };
            vel.rotate_degrees(dx);
            vel.x = bounce(vel.x, &self.params);
        }
        let mut y = py;
        if py < 0 || py > max_y {
            y = if py < 0 {
                0
            } else {
                max_y
            };
            vel.rotate_degrees(dy);
            vel.y = bounce(vel.y, &self.params);
        }
        (Vec2 { x, y }, vel)
    }
}

/// Velocity of particle `i` after the step when `dx` and `dy` are its deflections.
pub open spec fn wall_velocity(
    s: SimState,
    delta: int,
    bounds: Bounds,
    dx: Deflection,
    dy: Deflection,
    i: int,
) -> (int, int) {
    let v0 = velocity_before_walls(s, delta, bounds, i);
    let q = moved_position(s, delta, bounds, i);
    let v1 = if outside(q.0, bounds.max_x()) {
        wall_x(v0, dx, s.params)
    } else {
        v0
    };
    if outside(q.1, bounds.max_y()) {
        wall_y(v1, dy, s.params)
    } else {
        v1
    }
}

/// The error that construction from the given parts reports, if any, in the order in
/// which the parts are checked.
pub open spec fn parts_error(ps: Seq<Vec2>, vs: Seq<Vec2>, params: Params) -> Option<SimError> {
    if !params.wf() {
        Some(SimError::InvalidParams)
    } else if !(1 <= ps.len() <= MAX_PARTICLES) {
        Some(SimError::InvalidParticleCount)
    } else if vs.len() != ps.len() {
        Some(SimError::LengthMismatch)
    } else if !(forall|i: int| 0 <= i < ps.len() ==> coord_in_range(#[trigger] ps[i])) {
        Some(SimError::PositionOutOfRange)
    } else {
        None
    }
}

fn all_coords_in_range(ps: &Vec<Vec2>) -> (r: bool)
    ensures
        r == (forall|i: int| 0 <= i < ps@.len() ==> coord_in_range(#[trigger] ps@[i])),
{
    let mut i: usize = 0;
    while i < ps.len()
        invariant
            i <= ps@.len(),
            forall|k: int| 0 <= k < i ==> coord_in_range(#[trigger] ps@[k]),
        decreases ps@.len() - i,
    {
        let p = ps[i];
        if p.x < -MAX_COORD || p.x > MAX_COORD || p.y < -MAX_COORD || p.y > MAX_COORD {
            assert(!coord_in_range(ps@[i as int]));
            return false;
        }
        i = i + 1;
    }
    true
}

fn all_speeds_in_range(vs: &Vec<Vec2>) -> (r: bool)
    ensures
        r == (forall|i: int| 0 <= i < vs@.len() ==> speed_in_range(#[trigger] vs@[i])),
{
    let mut i: usize = 0;
    while i < vs.len()
        invariant
            i <= vs@.len(),
            forall|k: int| 0 <= k < i ==> speed_in_range(#[trigger] vs@[k]),
        decreases vs@.len() - i,
    {
        let v = vs[i];
        if v.x < -MAX_SPEED || v.x > MAX_SPEED || v.y < -MAX_SPEED || v.y > MAX_SPEED {
            assert(!speed_in_range(vs@[i as int]));
            return false;
        }
        i = i + 1;
    }
    true
}

fn all_angles_valid(angles: &Vec<i64>, max: i64) -> (r: bool)
    requires
        max >= 0,
    ensures
        r == angles_valid(angles@, max as int),
{
    let mut i: usize = 0;
    while i < angles.len()
        invariant
            i <= angles@.len(),
            max >= 0,
            forall|k: int| 0 <= k < i ==> -max <= #[trigger] angles@[k] <= max,
        decreases angles@.len() - i,
    {
        let a = angles[i];
        if a < -max || a > max {
            return false;
        }
        i = i + 1;
    }
    true
}

impl FluidSim {
    /// A simulation of the given particles. Fails, changing nothing, as `parts_error` says.
    pub fn from_parts(positions: Vec<Vec2>, velocities: Vec<Vec2>, params: Params) -> (r: Result<
        FluidSim,
        SimError,
    >)
        ensures
            match parts_error(positions@, velocities@, params) {
                Some(e) => r == Err::<FluidSim, SimError>(e),
                None => r is Ok && r->Ok_0.wf() && r->Ok_0@.positions == positions@
                    && r->Ok_0@.velocities == velocities@ && r->Ok_0@.params == params,
            },
    {
        if !params.is_valid() {
            return Err(SimError::InvalidParams);
        }
        if positions.len() < 1 || positions.len() > MAX_PARTICLES {
            return Err(SimError::InvalidParticleCount);
        }
        if velocities.len() != positions.len() {
            return Err(SimError::LengthMismatch);
        }
        if !all_coords_in_range(&positions) {
            return Err(SimError::PositionOutOfRange);
        }
        Ok(FluidSim { positions, velocities, params })
    }

    /// Number of particles; fixed for the life of the simulation.
    pub fn particle_count(&self) -> (r: usize)
        requires
            self.wf(),
        ensures
            r == self@.positions.len(),
            r == self@.velocities.len(),
    {
        self.positions.len()
    }

    /// The current positions, in particle order.
    pub fn get_particles_vertexes(&self) -> (r: Vec<Vec2>)
        ensures
            r@ == self@.positions,
    {
        self.positions.clone()
    }

    /// The current velocities, in particle order.
    pub fn velocities(&self) -> (r: Vec<Vec2>)
        ensures
            r@ == self@.velocities,
    {
        self.velocities.clone()
    }

    /// The constants of this simulation.
    pub fn params(&self) -> (r: Params)
        ensures
            r == self@.params,
    {
        self.params
    }

    /// Advances the simulation by `delta` microseconds within `bounds`: gravity, repulsion
    /// between the particles of each bucket, motion, then the walls, where the velocity of
    /// particle `i` is rotated through `angles[2i]` micro-radians at an x wall and through
    /// `angles[2i+1]` at a y wall. Fails, changing nothing, as `step_error` says.
    pub fn update_with_deflections(
        &mut self,
        delta: u64,
        bounds: Bounds,
        angles: &Vec<i64>,
    ) -> (r: Result<(), SimError>)
        requires
            old(self).wf(),
        ensures
            final(self).wf(),
            match step_error(old(self)@, delta, bounds, angles@) {
                Some(e) => r == Err::<(), SimError>(e) && final(self)@ == old(self)@,
                None => r is Ok && is_step(old(self)@, final(self)@, delta, bounds, angles@),
            },
            r is Ok ==> inside_arena(final(self)@, bounds),
    {
        if delta < 1 || delta > MAX_DELTA {
            return Err(SimError::InvalidDelta);
        }
        if bounds.width == 0 || bounds.height == 0 {
            return Err(SimError::InvalidBounds);
        }
        let n = self.positions.len();
        if angles.len() != 2 * n {
            return Err(SimError::DeflectionCount);
        }
        if !all_angles_valid(angles, self.params.max_deflection) {
            return Err(SimError::InvalidDeflection);
        }
        if !all_speeds_in_range(&self.velocities) {
            return Err(SimError::SpeedOutOfRange);
        }
        self.step_unchecked(delta, bounds, angles);
        proof {
            lemma_step_contained(old(self)@, self@, delta, bounds, angles@);
        }
        Ok(())
    }

    fn step_unchecked(&mut self, delta: u64, bounds: Bounds, angles: &Vec<i64>)
        requires
            old(self).wf(),
            step_error(old(self)@, delta, bounds, angles@) is None,
        ensures
            final(self).wf(),
            is_step(old(self)@, final(self)@, delta, bounds, angles@),
    {
        let ghost s = self@;
        let n = self.positions.len();
        let buckets = update_sectors(&self.positions, bounds, self.params.grid);
        proof {
            crate::forces::lemma_scaled_bound(s.params.gravity as int, delta as int);
        }
        let gravity_dv = scale_by_time(self.params.gravity, delta);
        let mut new_positions: Vec<Vec2> = Vec::new();
        let mut new_velocities: Vec<Vec2> = Vec::new();
        let mut i: usize = 0;
        while i < n
            invariant
                self@ == s,
                self.wf(),
                step_error(s, delta, bounds, angles@) is None,
                n == s.positions.len(),
                i <= n,
                gravity_dv == scaled_by_time(s.params.gravity as int, delta as int),
                buckets@.len() == s.params.grid.num_buckets(),
                forall|b: int|
                    0 <= b < s.params.grid.num_buckets() ==> #[trigger] buckets@[b]@ == members(
                        s.positions,
                        bounds,
                        s.params.grid,
                        b,
                    ),
                new_positions@.len() == i,
                new_velocities@.len() == i,
                forall|k: int|
                    0 <= k < i ==> {
                        &&& (#[trigger] new_positions@[k]).x == stepped_position(
                            s,
                            delta as int,
                            bounds,
                            k,
                        ).0
                        &&& new_positions@[k].y == stepped_position(s, delta as int, bounds, k).1
                        &&& new_velocities@[k].x == stepped_velocity(
                            s,
                            delta as int,
                            bounds,
                            angles@,
                            k,
                        ).0
                        &&& new_velocities@[k].y == stepped_velocity(
                            s,
                            delta as int,
                            bounds,
                            angles@,
                            k,
                        ).1
                        &&& 0 <= new_positions@[k].x <= bounds.max_x()
                        &&& 0 <= new_positions@[k].y <= bounds.max_y()
                    },
            decreases n - i,
        {
            let dx = Deflection::from_angle(angles[2 * i]);
            let dy = Deflection::from_angle(angles[2 * i + 1]);
            let (p, v) = self.step_particle(i, &buckets, delta, bounds, gravity_dv, dx, dy);
            new_positions.push(p);
            new_velocities.push(v);
            i = i + 1;
        }
        self.positions = new_positions;
        self.velocities = new_velocities;
        assert forall|k: int| 0 <= k < self@.positions.len() implies coord_in_range(
            #[trigger] self@.positions[k],
        ) by {
            assert(bounds.max_x() <= MAX_COORD);
            assert(bounds.max_y() <= MAX_COORD);
        }
    }
}

/// Every particle lies inside the arena: `0 <= x <= width*UNIT`, `0 <= y <= height*UNIT`.
pub open spec fn inside_arena(s: SimState, bounds: Bounds) -> bool {
    forall|i: int|
        0 <= i < s.positions.len() ==> 0 <= (#[trigger] s.positions[i]).x <= bounds.max_x() && 0
            <= s.positions[i].y <= bounds.max_y()
}

/// The error a randomized step reports, if any, in the order in which the inputs are
/// checked.
pub open spec fn update_error(s: SimState, delta: u64, bounds: Bounds) -> Option<SimError> {
    if !delta_valid(delta) {
        Some(SimError::InvalidDelta)
    } else if !bounds.valid() {
        Some(SimError::InvalidBounds)
    } else if !speeds_in_range(s) {
        Some(SimError::SpeedOutOfRange)
    } else {
        None
    }
}

/// The error that random construction reports, if any.
pub open spec fn new_rand_error(bounds: Bounds, count: usize, params: Params) -> Option<SimError> {
    if !params.wf() {
        Some(SimError::InvalidParams)
    } else if !bounds.valid() {
        Some(SimError::InvalidBounds)
    } else if !(1 <= count <= MAX_PARTICLES) {
        Some(SimError::InvalidParticleCount)
    } else {
        None
    }
}

impl FluidSim {
    /// `count` particles at positions drawn uniformly from the arena (each coordinate from
    /// `[0, max)`) with velocity components drawn from
    /// `[-max_start_speed, max_start_speed)`. Fails as `new_rand_error` says.
    pub fn new_rand(
        bounds: Bounds,
        count: usize,
        params: Params,
        rng: &mut rand::rngs::StdRng,
    ) -> (r: Result<FluidSim, SimError>)
        ensures
            match new_rand_error(bounds, count, params) {
                Some(e) => r == Err::<FluidSim, SimError>(e),
                None => {
                    &&& r is Ok
                    &&& r->Ok_0.wf()
                    &&& r->Ok_0@.params == params
                    &&& r->Ok_0@.positions.len() == count
                    &&& forall|i: int|
                        0 <= i < count ==> {
                            &&& 0 <= (#[trigger] r->Ok_0@.positions[i]).x < bounds.max_x()
                            &&& 0 <= r->Ok_0@.positions[i].y < bounds.max_y()
                            &&& -params.max_start_speed <= r->Ok_0@.velocities[i].x
                                < params.max_start_speed
                            &&& -params.max_start_speed <= r->Ok_0@.velocities[i].y
                                < params.max_start_speed
                        }
                },
            },
    {
        if !params.is_valid() {
            return Err(SimError::InvalidParams);
        }
        if bounds.width == 0 || bounds.height == 0 {
            return Err(SimError::InvalidBounds);
        }
        if count < 1 || count > MAX_PARTICLES {
            return Err(SimError::InvalidParticleCount);
        }
        let max_x: i64 = (bounds.width as i64) * UNIT;
        let max_y: i64 = (bounds.height as i64) * UNIT;
        let speed = params.max_start_speed;
        let mut positions: Vec<Vec2> = Vec::new();
        let mut velocities: Vec<Vec2> = Vec::new();
        let mut i: usize = 0;
        while i < count
            invariant
                params.wf(),
                i <= count <= MAX_PARTICLES,
                max_x == bounds.max_x(),
                max_y == bounds.max_y(),
                max_x > 0,
                max_y > 0,
                speed == params.max_start_speed,
                positions@.len() == i,
                velocities@.len() == i,
                forall|k: int|
                    0 <= k < i ==> {
                        &&& 0 <= (#[trigger] positions@[k]).x < max_x
                        &&& 0 <= positions@[k].y < max_y
                        &&& -speed <= velocities@[k].x < speed
                        &&& -speed <= velocities@[k].y < speed
                    },
            decreases count - i,
        {
            let x = random_in(rng, 0, max_x);
            let y = random_in(rng, 0, max_y);
            let vx = random_in(rng, -speed, speed);
            let vy = random_in(rng, -speed, speed);
            positions.push(Vec2 { x, y });
            velocities.push(Vec2 { x: vx, y: vy });
            assert(positions@[i as int] == Vec2 { x, y });
            assert(velocities@[i as int] == Vec2 { x: vx, y: vy });
            i = i + 1;
        }
        Ok(FluidSim { positions, velocities, params })
    }

    /// Advances the simulation as `update_with_deflections` does, with each deflection
    /// angle drawn uniformly from `[-max_deflection, max_deflection)`. Fails, changing
    /// nothing, as `update_error` says.
    pub fn update(&mut self, delta: u64, bounds: Bounds, rng: &mut rand::rngs::StdRng) -> (r:
        Result<(), SimError>)
        requires
            old(self).wf(),
        ensures
            final(self).wf(),
            match update_error(old(self)@, delta, bounds) {
                Some(e) => r == Err::<(), SimError>(e) && final(self)@ == old(self)@,
                None => {
                    &&& r is Ok
                    &&& exists|angles: Seq<i64>|
                        {
                            &&& angles.len() == 2 * old(self)@.positions.len()
                            &&& angles_valid(angles, old(self)@.params.max_deflection as int)
                            &&& #[trigger] is_step(old(self)@, final(self)@, delta, bounds, angles)
                        }
                },
            },
            r is Ok ==> inside_arena(final(self)@, bounds),
    {
        if delta < 1 || delta > MAX_DELTA {
            return Err(SimError::InvalidDelta);
        }
        if bounds.width == 0 || bounds.height == 0 {
            return Err(SimError::InvalidBounds);
        }
        if !all_speeds_in_range(&self.velocities) {
            return Err(SimError::SpeedOutOfRange);
        }
        let n = self.positions.len();
        let max = self.params.max_deflection;
        let mut angles: Vec<i64> = Vec::new();
        let mut k: usize = 0;
        while k < 2 * n
            invariant
                self.wf(),
                n == self@.positions.len(),
                max == self@.params.max_deflection,
                k <= 2 * n,
                angles@.len() == k,
                angles_valid(angles@, max as int),
            decreases 2 * n - k,
        {
            let angle = if max > 0 {
                random_in(rng, -max, max)
            } else {
                0
            };
            angles.push(angle);
            k = k + 1;
        }
        let ghost s = self@;
        self.step_unchecked(delta, bounds, &angles);
        proof {
            lemma_step_contained(s, self@, delta, bounds, angles@);
        }
        assert(is_step(s, self@, delta, bounds, angles@));
        Ok(())
    }
}

/// The number of particles never changes: a step keeps one position and one velocity per
/// particle, as many as before.
pub proof fn lemma_step_keeps_count(
    s: SimState,
    t: SimState,
    delta: u64,
    bounds: Bounds,
    angles: Seq<i64>,
)
    requires
        state_wf(s),
        is_step(s, t, delta, bounds, angles),
    ensures
        t.positions.len() == s.positions.len(),
        t.velocities.len() == s.positions.len(),
{
}

/// After a step every particle lies inside the arena: `0 <= x <= width*UNIT` and
/// `0 <= y <= height*UNIT`.
pub proof fn lemma_step_contained(
    s: SimState,
    t: SimState,
    delta: u64,
    bounds: Bounds,
    angles: Seq<i64>,
)
    requires
        bounds.valid(),
        is_step(s, t, delta, bounds, angles),
    ensures
        forall|i: int|
            0 <= i < t.positions.len() ==> 0 <= (#[trigger] t.positions[i]).x <= bounds.max_x()
                && 0 <= t.positions[i].y <= bounds.max_y(),
{
    assert forall|i: int| 0 <= i < t.positions.len() implies 0 <= (
    #[trigger] t.positions[i]).x <= bounds.max_x() && 0 <= t.positions[i].y <= bounds.max_y() by {
        assert(t.positions[i].x == stepped_position(s, delta as int, bounds, i).0);
    }
}

/// A step is a function of the state, the time step, the bounds and the deflections: two
/// steps from the same state with the same inputs give the same positions and velocities.
pub proof fn lemma_step_deterministic(
    s: SimState,
    t1: SimState,
    t2: SimState,
    delta: u64,
    bounds: Bounds,
    angles: Seq<i64>,
)
    requires
        state_wf(s),
        is_step(s, t1, delta, bounds, angles),
        is_step(s, t2, delta, bounds, angles),
    ensures
        t1.positions == t2.positions,
        t1.velocities == t2.velocities,
        t1.params == t2.params,
{
    assert forall|i: int| 0 <= i < t1.velocities.len() implies t1.velocities[i]
        == t2.velocities[i] by {
        assert(t1.positions[i].x == t2.positions[i].x);
    }
    assert(t1.positions =~= t2.positions);
    assert(t1.velocities =~= t2.velocities);
}

/// Particles `i` and `j` are distinct and closer than the interaction radius, but not at
/// the same point.
pub open spec fn interacts(pos: Seq<Vec2>, i: int, j: int, params: Params) -> bool {
    let dx = pos[j].x - pos[i].x;
    let dy = pos[j].y - pos[i].y;
    let r = params.interaction_radius as int;
    i != j && 0 < dx * dx + dy * dy < r * r
}

proof fn lemma_repulsion_zero(pos: Seq<Vec2>, i: int, m: Seq<usize>, params: Params, delta: int)
    requires
        forall|k: int| 0 <= k < m.len() ==> !interacts(pos, i, #[trigger] m[k] as int, params),
    ensures
        repulsion_x(pos, i, m, params, delta) == 0,
        repulsion_y(pos, i, m, params, delta) == 0,
    decreases m.len(),
{
    if m.len() > 0 {
        let p = m.drop_last();
        assert forall|k: int| 0 <= k < p.len() implies !interacts(
            pos,
            i,
            #[trigger] p[k] as int,
            params,
        ) by {
            assert(p[k] == m[k]);
        }
        lemma_repulsion_zero(pos, i, p, params, delta);
        assert(!interacts(pos, i, m[m.len() - 1] as int, params));
    }
}

/// A particle that no other particle of its bucket reaches, and that touches no wall,
/// changes velocity by gravity alone: no particle pushes itself, and pairs at the radius
/// or beyond exert nothing.
pub proof fn lemma_isolated_particle_feels_gravity_only(
    s: SimState,
    t: SimState,
    delta: u64,
    bounds: Bounds,
    angles: Seq<i64>,
    i: int,
)
    requires
        state_wf(s),
        bounds.valid(),
        is_step(s, t, delta, bounds, angles),
        0 <= i < s.positions.len(),
        forall|j: int|
            0 <= j < s.positions.len() && bucket_of(#[trigger] s.positions[j], bounds, s.params.grid)
                == bucket_of(s.positions[i], bounds, s.params.grid) ==> !interacts(
                s.positions,
                i,
                j,
                s.params,
            ),
        !outside(moved_position(s, delta as int, bounds, i).0, bounds.max_x()),
        !outside(moved_position(s, delta as int, bounds, i).1, bounds.max_y()),
    ensures
        t.velocities[i].x == s.velocities[i].x,
        t.velocities[i].y == s.velocities[i].y + scaled_by_time(
            s.params.gravity as int,
            delta as int,
        ),
{
    let grid = s.params.grid;
    let b = bucket_of(s.positions[i], bounds, grid);
    let m = members(s.positions, bounds, grid, b);
    lemma_partition_complete(s.positions, bounds, grid);
    assert forall|k: int| 0 <= k < m.len() implies !interacts(
        s.positions,
        i,
        #[trigger] m[k] as int,
        s.params,
    ) by {
        let j = m[k] as int;
        crate::sectors::lemma_bucket_range(s.positions[i], bounds, grid);
        assert(0 <= b < grid.num_buckets());
        assert(m[k] < s.positions.len());
        assert(m.contains(m[k]));
        assert(m.contains(j as usize));
        assert(bucket_of(s.positions[j], bounds, grid) == b);
    }
    lemma_repulsion_zero(s.positions, i, m, s.params, delta as int);
    assert(t.positions[i].x == stepped_position(s, delta as int, bounds, i).0);
}

/// Two particles that share a bucket, when no wall is touched, receive equal and opposite
/// repulsion: the velocity change beyond gravity of one is the negation of the other's.
pub proof fn lemma_pair_step_symmetric(
    s: SimState,
    t: SimState,
    delta: u64,
    bounds: Bounds,
    angles: Seq<i64>,
)
    requires
        state_wf(s),
        bounds.valid(),
        is_step(s, t, delta, bounds, angles),
        s.positions.len() == 2,
        bucket_of(s.positions[0], bounds, s.params.grid) == bucket_of(
            s.positions[1],
            bounds,
            s.params.grid,
        ),
        forall|i: int|
            0 <= i < 2 ==> !outside(
                #[trigger] moved_position(s, delta as int, bounds, i).0,
                bounds.max_x(),
            ) && !outside(moved_position(s, delta as int, bounds, i).1, bounds.max_y()),
    ensures
        t.velocities[0].x - s.velocities[0].x == -(t.velocities[1].x - s.velocities[1].x),
        t.velocities[0].y - s.velocities[0].y - scaled_by_time(s.params.gravity as int, delta as int)
            == -(t.velocities[1].y - s.velocities[1].y - scaled_by_time(
            s.params.gravity as int,
            delta as int,
        )),
{
    let grid = s.params.grid;
    let pos = s.positions;
    let b = bucket_of(pos[0], bounds, grid);
    let m1 = crate::sectors::members_upto(pos, 1, bounds, grid, b);
    let m = members(pos, bounds, grid, b);
    assert(crate::sectors::members_upto(pos, 0, bounds, grid, b) =~= Seq::<usize>::empty());
    assert(m1 =~= seq![0usize]);
    assert(m =~= seq![0usize, 1usize]);
    assert(m.drop_last() =~= seq![0usize]);
    assert(m.drop_last().drop_last() =~= Seq::<usize>::empty());
    crate::forces::lemma_repulsion_symmetric(pos, 0, 1, s.params, delta as int);
    let d = delta as int;
    let c01 = crate::forces::contribution(pos, 0, 1, s.params, d);
    let c10 = crate::forces::contribution(pos, 1, 0, s.params, d);
    assert(repulsion_x(pos, 0, Seq::<usize>::empty(), s.params, d) == 0);
    assert(repulsion_x(pos, 0, seq![0usize], s.params, d) == 0);
    assert(repulsion_x(pos, 0, m, s.params, d) == c01.0);
    assert(repulsion_y(pos, 0, Seq::<usize>::empty(), s.params, d) == 0);
    assert(repulsion_y(pos, 0, seq![0usize], s.params, d) == 0);
    assert(repulsion_y(pos, 0, m, s.params, d) == c01.1);
    assert(repulsion_x(pos, 1, Seq::<usize>::empty(), s.params, d) == 0);
    assert(repulsion_x(pos, 1, seq![0usize], s.params, d) == c10.0);
    assert(repulsion_x(pos, 1, m, s.params, d) == c10.0);
    assert(repulsion_y(pos, 1, Seq::<usize>::empty(), s.params, d) == 0);
    assert(repulsion_y(pos, 1, seq![0usize], s.params, d) == c10.1);
    assert(repulsion_y(pos, 1, m, s.params, d) == c10.1);
    assert(members(pos, bounds, grid, bucket_of(pos[1], bounds, grid)) == m);
    let _ = moved_position(s, delta as int, bounds, 0);
    let _ = moved_position(s, delta as int, bounds, 1);
    assert(t.positions[0].x == stepped_position(s, delta as int, bounds, 0).0);
    assert(t.positions[1].x == stepped_position(s, delta as int, bounds, 1).0);
}

} // verus!
