//! A fixed-point model of the Lorenz attractor: an explicit Euler integrator,
//! a bounded trail of recent samples, a cycling hue, and the camera transform
//! that turns the trail into drawable points.
//!
//! All quantities are integers in fixed point (see `fixed`), so every step is
//! exact and reproducible, and divergence is caught as a value leaving its
//! range rather than as an infinity.
pub mod camera;
pub mod fixed;
pub mod hue;
pub mod lorenz;
pub mod params;
pub mod simulation;
pub mod trail;
