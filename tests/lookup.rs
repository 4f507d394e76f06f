use temperature_sensor::sensors::{read_connected_sensors, read_connected_serials, read_sensor};
use temperature_sensor::{Sensor, SensorType};

fn named(serial: &str, name: &str) -> Sensor {
    Sensor {
        sensor_type: SensorType::Berlinger,
        serial: serial.to_string(),
        name: name.to_string(),
        last_connected_timestamp: None,
        log_interval: None,
        breaches: None,
        configs: None,
        logs: None,
    }
}

#[test]
fn no_connected_sensors_is_an_error() {
    assert_eq!(read_connected_sensors(None).unwrap_err(), "No sensors found");
    assert_eq!(read_connected_serials(None).unwrap_err(), "No sensors found");
}

#[test]
fn connected_sensors_are_returned() {
    let found = read_connected_sensors(Some(vec![named("a", "one"), named("b", "two")])).unwrap();
    assert_eq!(found.len(), 2);
    assert_eq!(found[1].serial, "b");
    let serials = read_connected_serials(Some(vec!["a".to_string()])).unwrap();
    assert_eq!(serials, vec!["a".to_string()]);
}

#[test]
fn sensor_found_by_serial() {
    let sensors = vec![named("reg 1", "one"), named("reg 12", "two"), named("reg 12", "three")];
    let s = read_sensor("reg 12", Some(sensors)).unwrap();
    assert_eq!(s.name, "two");
}

#[test]
fn sensor_with_other_serial_is_not_found() {
    let sensors = vec![named("reg 1", "one"), named("reg 12", "two")];
    assert_eq!(read_sensor("reg 123", Some(sensors)).unwrap_err(), "Sensor not found");
    assert_eq!(read_sensor("reg", Some(Vec::new())).unwrap_err(), "Sensor not found");
    assert_eq!(read_sensor("reg 1", None).unwrap_err(), "Sensor not found");
}
