//! Reconstruction and filtering of temperature-breach history for cold-chain
//! USB data loggers.
//!
//! Timestamps are naive (zone-less) date-times counted in whole seconds since
//! 1970-01-01 00:00:00; durations are whole seconds; temperatures are whole
//! hundredths of a degree Celsius.
pub mod common;
pub mod calendar;
pub mod cumulative;
pub mod consecutive;
pub mod filter;
pub mod sample;
pub mod sensors;

pub use crate::common::{
    BreachType, Sensor, SensorType, TemperatureBreach, TemperatureBreachConfig, TemperatureLog,
};
