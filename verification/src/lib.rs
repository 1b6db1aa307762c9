//! Simulation and visibility core of a top-down arcade game, on an integer
//! grid: a light source moves through an arena of walls and drifting
//! asteroids and casts a fan of rays whose nearest hits outline what it sees.
//!
//! Lengths are whole grid units, a thousand to the pixel, and times whole
//! ticks, a million to the second, so that every step is exact and every
//! answer can be stated and proved. Whoever runs the frames reads the keys
//! and the clock, hands them over as plain values, and draws what comes
//! back.

pub mod consts;
pub mod input;
pub mod math;
pub mod save;
pub mod scene;
