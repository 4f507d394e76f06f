use chrono::NaiveDateTime;
use temperature_sensor::filter::filter_sensor;
use temperature_sensor::sample::sample_sensor;

fn at(text: &str) -> i64 {
    NaiveDateTime::parse_from_str(text, "%Y-%m-%d %H:%M:%S")
        .unwrap()
        .and_utc()
        .timestamp()
}

#[test]
fn test_sample_core() {
    let sensor = sample_sensor();
    assert_eq!(sensor.serial, "reg 1234");
    assert!(sensor.breaches.is_some());
    assert!(sensor.logs.is_some());
    assert!(sensor.configs.is_some());
}

#[test]
fn test_sample_breach() {
    let sensor = sample_sensor();
    let start_timestamp = at("2023-05-23 13:04:00");
    let end_timestamp = at("2023-05-23 13:17:00");
    let breaches = sensor.breaches.unwrap();
    assert_eq!(breaches[0].start_timestamp, start_timestamp); // start of hot breach
    assert_eq!(breaches[1].end_timestamp, end_timestamp); // end of cold breach
}

#[test]
fn test_sample_log() {
    let sensor = sample_sensor();
    let start_timestamp = at("2023-05-23 13:04:00");
    let end_timestamp = at("2023-05-23 13:17:00");
    let logs = sensor.logs.unwrap();
    assert_eq!(logs[4].timestamp, start_timestamp); // start of hot breach
    assert_eq!(logs[17].timestamp, end_timestamp); // end of cold breach
}

#[test]
fn test_sample_filter_breach() {
    let start_timestamp = at("2023-05-23 13:07:00");
    let end_timestamp = at("2023-05-23 13:15:00");
    let sensor = filter_sensor(sample_sensor(), Some(start_timestamp), Some(end_timestamp));
    let breaches = sensor.breaches.unwrap();
    assert_eq!(breaches.len(), 2);
    // Both breaches overlap the window and are kept whole, not cut to it.
    assert_eq!(breaches[0].start_timestamp, at("2023-05-23 13:04:00"));
    assert_eq!(breaches[1].end_timestamp, at("2023-05-23 13:17:00"));
}

#[test]
fn test_sample_filter_log() {
    let start_timestamp = at("2023-05-23 13:07:00");
    let end_timestamp = at("2023-05-23 13:15:00");
    let sensor = filter_sensor(sample_sensor(), Some(start_timestamp), Some(end_timestamp));
    let logs = sensor.logs.unwrap();
    assert_eq!(logs[0].timestamp, start_timestamp);
    assert_eq!(logs[8].timestamp, end_timestamp);
    assert_eq!(logs.len(), 9);
}

#[test]
fn sample_sensor_other_fields() {
    let sensor = sample_sensor();
    assert_eq!(sensor.name, "Berlinger 1");
    assert_eq!(sensor.log_interval, Some(60));
    assert_eq!(sensor.last_connected_timestamp, Some(at("2023-05-23 13:19:00")));
    let logs = sensor.logs.unwrap();
    assert_eq!(logs.len(), 19);
    assert_eq!(logs[0].temperature, 350);
    assert_eq!(logs[16].temperature, -20);
    assert_eq!(sensor.configs.unwrap().len(), 2);
}
