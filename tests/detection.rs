use temperature_sensor::consecutive::detect_consecutive_breaches;
use temperature_sensor::sample::{sample_sensor, SAMPLE_START};
use temperature_sensor::{BreachType, TemperatureBreachConfig, TemperatureLog};

fn hot(duration: i64) -> TemperatureBreachConfig {
    TemperatureBreachConfig {
        breach_type: BreachType::HotConsecutive,
        minimum_temperature: -27300,
        maximum_temperature: 800,
        duration,
    }
}

fn series(start: i64, step: i64, temperatures: &[i64]) -> Vec<TemperatureLog> {
    temperatures
        .iter()
        .enumerate()
        .map(|(i, t)| TemperatureLog { temperature: *t, timestamp: start + step * i as i64 })
        .collect()
}

#[test]
fn sample_data_breaches_are_detected() {
    let sensor = sample_sensor();
    let logs = sensor.logs.unwrap();
    let configs = sensor.configs.unwrap();
    let cold = detect_consecutive_breaches(&configs[0], &logs, 60);
    let hot = detect_consecutive_breaches(&configs[1], &logs, 60);
    assert_eq!(hot.len(), 1);
    assert_eq!(hot[0].breach_type, BreachType::HotConsecutive);
    assert_eq!(hot[0].start_timestamp, SAMPLE_START + 4 * 60);
    assert_eq!(hot[0].end_timestamp, SAMPLE_START + 10 * 60);
    assert_eq!(hot[0].duration, 360);
    assert_eq!(cold.len(), 1);
    assert_eq!(cold[0].breach_type, BreachType::ColdConsecutive);
    assert_eq!(cold[0].start_timestamp, SAMPLE_START + 13 * 60);
    assert_eq!(cold[0].end_timestamp, SAMPLE_START + 17 * 60);
    assert_eq!(cold[0].duration, 240);
    let breaches = sample_sensor().breaches.unwrap();
    assert_eq!(hot[0], breaches[0]);
    assert_eq!(cold[0], breaches[1]);
}

#[test]
fn run_shorter_than_duration_is_noise() {
    let logs = series(1000, 60, &[500, 900, 900, 900, 900, 900, 500]);
    assert!(detect_consecutive_breaches(&hot(300), &logs, 60).is_empty());
}

#[test]
fn run_exactly_the_duration_is_one_breach() {
    let logs = series(1000, 60, &[500, 900, 900, 900, 900, 900, 500]);
    let found = detect_consecutive_breaches(&hot(240), &logs, 60);
    assert_eq!(found.len(), 1);
    assert_eq!(found[0].start_timestamp, 1060);
    assert_eq!(found[0].end_timestamp, 1300);
    assert_eq!(found[0].duration, 240);
    assert!(!found[0].acknowledged);
}

#[test]
fn several_runs_in_order() {
    let logs = series(0, 60, &[900, 900, 900, 500, 900, 500, 900, 900, 900, 900]);
    let found = detect_consecutive_breaches(&hot(120), &logs, 60);
    assert_eq!(found.len(), 2);
    assert_eq!((found[0].start_timestamp, found[0].end_timestamp), (0, 120));
    assert_eq!((found[1].start_timestamp, found[1].end_timestamp), (360, 540));
}

#[test]
fn gap_in_series_ends_a_run() {
    let mut logs = series(0, 60, &[900, 900, 900]);
    logs.extend(series(600, 60, &[900, 900, 900]));
    let found = detect_consecutive_breaches(&hot(120), &logs, 60);
    assert_eq!(found.len(), 2);
    assert_eq!((found[0].start_timestamp, found[0].end_timestamp), (0, 120));
    assert_eq!((found[1].start_timestamp, found[1].end_timestamp), (600, 720));
    // Joined across the gap, the run would be long enough on its own.
    assert!(detect_consecutive_breaches(&hot(600), &logs, 60).is_empty());
}

#[test]
fn run_may_cross_midnight() {
    let logs = series(86400 - 120, 60, &[900, 900, 900, 900, 900]);
    let found = detect_consecutive_breaches(&hot(240), &logs, 60);
    assert_eq!(found.len(), 1);
    assert_eq!(found[0].start_timestamp, 86280);
    assert_eq!(found[0].end_timestamp, 86520);
}

#[test]
fn run_at_the_end_of_the_series_counts() {
    let logs = series(0, 300, &[500, 900, 900]);
    let found = detect_consecutive_breaches(&hot(300), &logs, 300);
    assert_eq!(found.len(), 1);
    assert_eq!((found[0].start_timestamp, found[0].end_timestamp), (300, 600));
}

#[test]
fn cold_runs_use_the_minimum() {
    let config = TemperatureBreachConfig {
        breach_type: BreachType::ColdConsecutive,
        minimum_temperature: 200,
        maximum_temperature: 800,
        duration: 60,
    };
    let logs = series(0, 60, &[900, 200, 199, 100, 900]);
    let found = detect_consecutive_breaches(&config, &logs, 60);
    assert_eq!(found.len(), 1);
    assert_eq!((found[0].start_timestamp, found[0].end_timestamp), (120, 180));
    assert_eq!(found[0].breach_type, BreachType::ColdConsecutive);
}

#[test]
fn no_samples_no_breaches() {
    assert!(detect_consecutive_breaches(&hot(0), &Vec::new(), 60).is_empty());
}
