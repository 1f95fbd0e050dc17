//! A particle simulation in fixed-point arithmetic: particles fall under gravity, repel
//! the particles of their own sector within a short radius, and bounce off the walls of
//! the arena with a small random deflection and a loss of speed.
pub mod fixed;
pub mod vec2;
pub mod sectors;
pub mod params;
pub mod forces;
mod random;
pub mod sim;
