//! Player input handling: device catalog, device-to-player assignment with an
//! injectivity invariant, automatic assignment policy, mapping sync, and
//! per-tick sampling of keyboard and gamepad state into normalized movement
//! vectors and edge-triggered action events.
//!
//! Movement vectors use fixed-point coordinates in thousandths of a unit, so
//! that normalization and clamping are exact integer arithmetic.

pub mod assignment;
pub mod buttons;
pub mod controller;
pub mod device;
pub mod math;
pub mod systems;
