//! Timing analysis of gamma-ray photons: are the arrival times of photons of
//! different energies consistent with a constant speed of light?
//!
//! The library keeps the ordered collection of measurements, decides every
//! threshold and branch of the analysis, and composes the reported result.
//! Numbers are binary64 values held by their bit patterns ([`binary64::Binary64`]):
//! the library orders and compares them exactly, and takes the sums, quotients
//! and exponentials of an analysis from its caller.

pub mod analyzer;
pub mod binary64;
pub mod data;
pub mod statistics;

pub use analyzer::{GammaRayAnalyzer, LightSpeedTestResult, TimingData};
pub use statistics::SpeedOfLightHypothesisTest;
