//! Verified core of a BLE HID trackpad pipeline.
//!
//! Raw relative-motion samples from a touch sensor are scaled by a
//! piecewise-linear acceleration curve, clamped and packed into a fixed
//! 4-byte HID mouse report, while a two-state power scheduler throttles
//! polling after a sustained idle window. All arithmetic is integral:
//! speeds are integer square roots of squared deltas, and curve factors
//! are carried in thousandths.

pub mod accel;
pub mod math;
pub mod pipeline;
pub mod power;
pub mod report;
