use vstd::prelude::*;

verus! {

/// The decoding family of a sensor.
#[derive(Clone, Copy, Debug, PartialEq, Eq, Structural)]
pub enum SensorType {
    Berlinger,
}

/// What a breach configuration watches for.
#[derive(Clone, Copy, Debug, PartialEq, Eq, Structural)]
pub enum BreachType {
    ColdConsecutive,
    HotConsecutive,
    ColdCumulative,
    HotCumulative,
}

/// One temperature sample.
#[derive(Clone, Copy, Debug, PartialEq, Eq, Structural)]
pub struct TemperatureLog {
    /// Hundredths of a degree Celsius.
    pub temperature: i64,
    /// Seconds since 1970-01-01 00:00:00.
    pub timestamp: i64,
}

/// The thresholds and minimum duration that confirm one type of breach.
#[derive(Clone, Copy, Debug, PartialEq, Eq, Structural)]
pub struct TemperatureBreachConfig {
    pub breach_type: BreachType,
    /// Hundredths of a degree Celsius.
    pub minimum_temperature: i64,
    /// Hundredths of a degree Celsius.
    pub maximum_temperature: i64,
    /// Seconds.
    pub duration: i64,
}

/// A recorded or reconstructed breach.
#[derive(Clone, Copy, Debug, PartialEq, Eq, Structural)]
pub struct TemperatureBreach {
    pub breach_type: BreachType,
    pub start_timestamp: i64,
    pub end_timestamp: i64,
    /// Seconds.
    pub duration: i64,
    pub acknowledged: bool,
}

/// Everything read from one sensor.  An absent list means that there is no data
/// of that kind; a present list is never empty.
#[derive(Clone, Debug)]
pub struct Sensor {
    pub sensor_type: SensorType,
    pub serial: String,
    pub name: String,
    pub last_connected_timestamp: Option<i64>,
    /// Seconds between two samples.
    pub log_interval: Option<i64>,
    pub breaches: Option<Vec<TemperatureBreach>>,
    pub configs: Option<Vec<TemperatureBreachConfig>>,
    pub logs: Option<Vec<TemperatureLog>>,
}

impl Sensor {
    /// A present list is never empty, and no breach ends before it starts.
    pub open spec fn well_formed(&self) -> bool {
        &&& self.breaches matches Some(b) ==> b@.len() > 0 && forall|i: int|
            0 <= i < b@.len() ==> (#[trigger] b@[i]).start_timestamp <= b@[i].end_timestamp
        &&& self.logs matches Some(l) ==> l@.len() > 0
        &&& self.configs matches Some(c) ==> c@.len() > 0
    }
}

pub open spec fn is_cold(t: BreachType) -> bool {
    t == BreachType::ColdConsecutive || t == BreachType::ColdCumulative
}

/// A sample breaches a configuration when it lies below the minimum for a
/// cold type, or above the maximum for a hot type.
pub open spec fn breaching(config: TemperatureBreachConfig, temperature: i64) -> bool {
    if is_cold(config.breach_type) {
        temperature < config.minimum_temperature
    } else {
        temperature > config.maximum_temperature
    }
}

pub fn is_breaching(config: &TemperatureBreachConfig, temperature: i64) -> (r: bool)
    ensures
        r == breaching(*config, temperature),
{
    match config.breach_type {
        BreachType::ColdConsecutive | BreachType::ColdCumulative => {
            temperature < config.minimum_temperature
        },
        BreachType::HotConsecutive | BreachType::HotCumulative => {
            temperature > config.maximum_temperature
        },
    }
}

/// A breach whose duration is the distance between its bounds.
pub open spec fn breach_between(
    breach_type: BreachType,
    start: int,
    end: int,
) -> TemperatureBreach {
    TemperatureBreach {
        breach_type,
        start_timestamp: start as i64,
        end_timestamp: end as i64,
        duration: (end - start) as i64,
        acknowledged: false,
    }
}

} // verus!
