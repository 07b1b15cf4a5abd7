//! Smoothing of a parameter that is retargeted while it is in use.
//!
//! A [`Smoothed`] value ramps linearly from where it stands to the value it
//! was last given, one caller-supplied step at a time, so that a consumer
//! reading it every tick never sees a sudden change. The engine is generic
//! over the [`Interpolate`] capability; [`Fixed`] is the numeric type that
//! implements it here. All arithmetic is exact integer arithmetic on
//! fixed-point values.

pub mod fixed;
pub mod interpolate;
pub mod laws;
pub mod progress;
pub mod smoothed;

pub use fixed::Fixed;
pub use interpolate::Interpolate;
pub use progress::{Progress, UNIT};
pub use smoothed::{Smoothed, SmoothedView};
