//! Verified core of an interactive image viewer: exact RGB<->HSV color
//! transforms, tone windowing, value histograms, a gradient-magnitude edge
//! filter, and the state machine that runs the filter as a background job.
//!
//! All channel values are exact fractions (integer numerator / denominator),
//! so the color math is reversible and every contract is exact.

pub mod color;
pub mod edge;
pub mod frac;
pub mod histogram;
pub mod img;
pub mod jobs;
pub mod tone;
