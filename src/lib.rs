//! Deterministic fixed-tick gameplay core of a 2D platformer shooter.
//!
//! Lengths are fixed-point integers in thousandths of a pixel, velocities in
//! thousandths of a pixel per second, angles in microradians, input axes in
//! thousandths of full deflection and durations in simulation ticks.
pub mod blood;
pub mod camera;
pub mod components;
pub mod debug;
pub mod fps;
pub mod input;
pub mod pipeline;
pub mod platforms;
pub mod player;
pub mod store;
pub mod timer;
pub mod tracking;
pub mod units;
pub mod world;
