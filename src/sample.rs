use vstd::prelude::*;

use crate::common::{
    breach_between, BreachType, Sensor, SensorType, TemperatureBreach, TemperatureBreachConfig,
    TemperatureLog,
};

verus! {

/// 2023-05-23 13:00:00, the time of the first sample of the example sensor.
pub const SAMPLE_START: i64 = 1_684_846_800;

/// Seconds between two samples of the example sensor.
pub const SAMPLE_INTERVAL: i64 = 60;

/// The example sensor's readings, in hundredths of a degree: four in range,
/// seven too warm, two in range, five too cold and one in range.
pub open spec fn sample_temperatures() -> Seq<i64> {
    seq![350i64, 400, 500, 750, 880, 920, 870, 910, 840, 820, 810, 790, 320, 120, 130, 40, -20i64, 70, 250]
}

pub open spec fn sample_cold_config() -> TemperatureBreachConfig {
    TemperatureBreachConfig {
        breach_type: BreachType::ColdConsecutive,
        maximum_temperature: 10000,
        minimum_temperature: 200,
        duration: 240,
    }
}

pub open spec fn sample_hot_config() -> TemperatureBreachConfig {
    TemperatureBreachConfig {
        breach_type: BreachType::HotConsecutive,
        maximum_temperature: 800,
        minimum_temperature: -27300i64,
        duration: 300,
    }
}

/// Made-up data for trying the library out: a sensor sampled every minute from
/// 13:00:00 with a warm spell from the fifth to the eleventh sample and a cold
/// spell from the fourteenth to the eighteenth, and the two breaches they make.
pub fn sample_sensor() -> (r: Sensor)
    ensures
        r.well_formed(),
        r.sensor_type == SensorType::Berlinger,
        r.serial@ == "reg 1234"@,
        r.name@ == "Berlinger 1"@,
        r.last_connected_timestamp == Some((SAMPLE_START + 19 * SAMPLE_INTERVAL) as i64),
        r.log_interval == Some(SAMPLE_INTERVAL),
        r.logs matches Some(logs) && logs@.len() == sample_temperatures().len() && forall|i: int|
            0 <= i < logs@.len() ==> #[trigger] logs@[i] == (TemperatureLog {
                temperature: sample_temperatures()[i],
                timestamp: (SAMPLE_START + i * SAMPLE_INTERVAL) as i64,
            }),
        r.breaches matches Some(breaches) && breaches@ == seq![
            breach_between(BreachType::HotConsecutive, SAMPLE_START + 4 * SAMPLE_INTERVAL, SAMPLE_START + 10 * SAMPLE_INTERVAL),
            breach_between(BreachType::ColdConsecutive, SAMPLE_START + 13 * SAMPLE_INTERVAL, SAMPLE_START + 17 * SAMPLE_INTERVAL),
        ],
        r.configs matches Some(configs) && configs@ == seq![sample_cold_config(), sample_hot_config()],
{
    let config_cold_consecutive = TemperatureBreachConfig {
        breach_type: BreachType::ColdConsecutive,
        maximum_temperature: 10000,
        minimum_temperature: 200,
        duration: 240,
    };
    let config_hot_consecutive = TemperatureBreachConfig {
        breach_type: BreachType::HotConsecutive,
        maximum_temperature: 800,
        minimum_temperature: -27300,
        duration: 300,
    };
    let temperatures: Vec<i64> = vec![
        350, 400, 500, 750, 880, 920, 870, 910, 840, 820, 810, 790, 320, 120, 130, 40, -20, 70, 250,
    ];
    assert(temperatures@ == sample_temperatures());

    let mut logs: Vec<TemperatureLog> = Vec::new();
    let mut timestamp: i64 = SAMPLE_START;
    let mut i: usize = 0;
    while i < temperatures.len()
        invariant
            temperatures@ == sample_temperatures(),
            i <= temperatures.len(),
            timestamp == SAMPLE_START + i * SAMPLE_INTERVAL,
            logs@.len() == i,
            forall|k: int|
                0 <= k < i ==> #[trigger] logs@[k] == (TemperatureLog {
                    temperature: sample_temperatures()[k],
                    timestamp: (SAMPLE_START + k * SAMPLE_INTERVAL) as i64,
                }),
        decreases temperatures.len() - i,
    {
        logs.push(TemperatureLog { temperature: temperatures[i], timestamp });
        timestamp = timestamp + SAMPLE_INTERVAL;
        i = i + 1;
    }

    let hot_start = SAMPLE_START + 4 * SAMPLE_INTERVAL;
    let hot_end = SAMPLE_START + 10 * SAMPLE_INTERVAL;
    let cold_start = SAMPLE_START + 13 * SAMPLE_INTERVAL;
    let cold_end = SAMPLE_START + 17 * SAMPLE_INTERVAL;
    let breach_hot_consecutive = TemperatureBreach {
        breach_type: BreachType::HotConsecutive,
        start_timestamp: hot_start,
        end_timestamp: hot_end,
        duration: hot_end - hot_start,
        acknowledged: false,
    };
    let breach_cold_consecutive = TemperatureBreach {
        breach_type: BreachType::ColdConsecutive,
        start_timestamp: cold_start,
        end_timestamp: cold_end,
        duration: cold_end - cold_start,
        acknowledged: false,
    };
    let breaches = vec![breach_hot_consecutive, breach_cold_consecutive];
    let configs = vec![config_cold_consecutive, config_hot_consecutive];
    assert(breaches@ == seq![
        breach_between(BreachType::HotConsecutive, SAMPLE_START + 4 * SAMPLE_INTERVAL, SAMPLE_START + 10 * SAMPLE_INTERVAL),
        breach_between(BreachType::ColdConsecutive, SAMPLE_START + 13 * SAMPLE_INTERVAL, SAMPLE_START + 17 * SAMPLE_INTERVAL),
    ]);
    assert(configs@ == seq![sample_cold_config(), sample_hot_config()]);
    Sensor {
        sensor_type: SensorType::Berlinger,
        serial: "reg 1234".to_owned(),
        name: "Berlinger 1".to_owned(),
        last_connected_timestamp: Some(timestamp),
        log_interval: Some(SAMPLE_INTERVAL),
        breaches: Some(breaches),
        configs: Some(configs),
        logs: Some(logs),
    }
}

} // verus!
