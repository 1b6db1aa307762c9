//! Sizes of the arena and of the screen's fixed parts, in grid units, and
//! the units themselves.

use vstd::prelude::*;

verus! {

/// Grid units in one pixel of the virtual screen.
pub const UNITS_PER_PIXEL: i32 = 1000;

/// Ticks of the clock in one second.
pub const TICKS_PER_SECOND: u64 = 1_000_000;

/// Width of the arena: 1280 pixels.
pub const VIRTUAL_WIDTH: i32 = 1_280_000;

/// Height of the arena: 720 pixels.
pub const VIRTUAL_HEIGHT: i32 = 720_000;

/// How far down the title of a scene stands: 120 pixels.
pub const TITLE_Y_INSET: i32 = 120_000;

/// How far right aligned text stands: 200 pixels.
pub const X_INSET: i32 = 200_000;

pub const VERSION: &'static str = "0.1.0";

pub const PKG_NAME: &'static str = "quads_jam_2024";

} // verus!
