//! A two-dimensional incompressible-flow solver on a staggered grid:
//! pressure projection by Gauss-Seidel sweeps, semi-Lagrangian advection of
//! the velocity and of a passive tracer, and obstacles drawn at run time.

pub mod fixed;
pub mod flow;
pub mod grid;
pub mod laws;
pub mod modes;
pub mod params;
pub mod scalar;
pub mod sim;
