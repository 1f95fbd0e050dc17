//! Tunable constants of the simulation and the limits that keep its arithmetic exact.
use vstd::prelude::*;
use crate::sectors::Grid;
use crate::vec2::MAX_DEFLECTION_ANGLE;

verus! {

/// Largest gravity or repulsion strength, in sub-units per second squared.
pub const MAX_ACCEL: i64 = 1_000_000_000;

/// Largest interaction radius, in sub-units.
pub const MAX_RADIUS: i64 = 1_000_000_000;

/// Largest velocity component, in sub-units per second, that a step accepts.
pub const MAX_SPEED: i64 = 1_000_000_000_000_000;

/// Largest time step, in microseconds.
pub const MAX_DELTA: u64 = 10_000_000;

/// Largest number of particles.
pub const MAX_PARTICLES: usize = 1_000_000;

/// Largest coordinate magnitude, in sub-units, of a particle position.
pub const MAX_COORD: i64 = 1_000_000_000_000_000;

/// Particle count of the standard setup.
pub const PARTICLE_NUMBER: usize = 1000;

/// The constants of the simulation. Lengths are in sub-units (`UNIT` to an arena unit),
/// times in seconds, angles in micro-radians.
#[derive(Clone, Copy, Debug, PartialEq, Eq, Structural)]
pub struct Params {
    /// Added to the y velocity each second.
    pub gravity: i64,
    /// Initial velocity components are drawn from `[-max_start_speed, max_start_speed)`.
    pub max_start_speed: i64,
    /// Pairs at this distance or farther do not interact.
    pub interaction_radius: i64,
    /// Repulsion acceleration at distance zero.
    pub repulsion_strength: i64,
    /// A bounce multiplies the velocity component of the wall's axis by
    /// `-decay_num / decay_den`.
    pub decay_num: i64,
    pub decay_den: i64,
    /// A bounce first rotates the velocity by an angle drawn from
    /// `[-max_deflection, max_deflection)`.
    pub max_deflection: i64,
    /// Resolution of the sector grid.
    pub grid: Grid,
}

impl Params {
    pub open spec fn wf(self) -> bool {
        &&& -MAX_ACCEL <= self.gravity <= MAX_ACCEL
        &&& 1 <= self.max_start_speed <= MAX_SPEED
        &&& 1 <= self.interaction_radius <= MAX_RADIUS
        &&& 0 <= self.repulsion_strength <= MAX_ACCEL
        &&& 0 <= self.decay_num < self.decay_den <= 1_000_000
        &&& 0 <= self.max_deflection <= MAX_DEFLECTION_ANGLE
        &&& self.grid.wf()
    }

    /// Whether the constants lie in the ranges the simulation supports.
    pub fn is_valid(&self) -> (r: bool)
        ensures
            r == self.wf(),
    {
        -MAX_ACCEL <= self.gravity && self.gravity <= MAX_ACCEL && 1 <= self.max_start_speed
            && self.max_start_speed <= MAX_SPEED && 1 <= self.interaction_radius
            && self.interaction_radius <= MAX_RADIUS && 0 <= self.repulsion_strength
            && self.repulsion_strength <= MAX_ACCEL && 0 <= self.decay_num && self.decay_num
            < self.decay_den && self.decay_den <= 1_000_000 && 0 <= self.max_deflection
            && self.max_deflection <= MAX_DEFLECTION_ANGLE && 1 <= self.grid.rows
            && self.grid.rows <= crate::sectors::MAX_GRID_CELLS && 1 <= self.grid.cols
            && self.grid.cols <= crate::sectors::MAX_GRID_CELLS
    }

    /// The standard setup: gravity 300 units/s^2, start speed 140 units/s, radius 200
    /// units, strength 400 units/s^2, decay 0.9, deflection up to pi/16, a 5x5 grid.
    pub fn standard() -> (r: Params)
        ensures
            r.wf(),
            r == (Params {
                gravity: 300_000,
                max_start_speed: 140_000,
                interaction_radius: 200_000,
                repulsion_strength: 400_000,
                decay_num: 9,
                decay_den: 10,
                max_deflection: 196_350,
                grid: Grid { rows: 5, cols: 5 },
            }),
    {
        Params {
            gravity: 300_000,
            max_start_speed: 140_000,
            interaction_radius: 200_000,
            repulsion_strength: 400_000,
            decay_num: 9,
            decay_den: 10,
            max_deflection: 196_350,
            grid: Grid { rows: 5, cols: 5 },
        }
    }
}

} // verus!
