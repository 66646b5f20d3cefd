//! Verified core of a command-line utility that configures one output of an
//! Si5351 clock generator: argument validation, default selection, and the
//! human-readable status text. The I2C traffic itself is left to the hardware
//! driver and stays outside the library.

pub mod numbers;
pub mod report;
pub mod selectors;
