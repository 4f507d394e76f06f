use temperature_sensor::filter::filter_sensor;
use temperature_sensor::{BreachType, Sensor, SensorType, TemperatureBreach, TemperatureLog};

const TEN: i64 = 36000;

fn breach(start: i64, end: i64) -> TemperatureBreach {
    TemperatureBreach {
        breach_type: BreachType::HotConsecutive,
        start_timestamp: start,
        end_timestamp: end,
        duration: end - start,
        acknowledged: true,
    }
}

fn sensor(breaches: Option<Vec<TemperatureBreach>>, logs: Option<Vec<TemperatureLog>>) -> Sensor {
    Sensor {
        sensor_type: SensorType::Berlinger,
        serial: "s1".to_string(),
        name: "fridge".to_string(),
        last_connected_timestamp: Some(5),
        log_interval: Some(60),
        breaches,
        configs: None,
        logs,
    }
}

fn minute_logs() -> Vec<TemperatureLog> {
    (0..=10).map(|m| TemperatureLog { temperature: m, timestamp: TEN + 60 * m as i64 }).collect()
}

#[test]
fn breach_overlapping_window_is_not_truncated() {
    let s = sensor(Some(vec![breach(TEN, TEN + 600)]), None);
    let r = filter_sensor(s, Some(TEN + 300), Some(TEN + 420));
    assert_eq!(r.breaches, Some(vec![breach(TEN, TEN + 600)]));
}

#[test]
fn logs_inside_window_are_kept() {
    let r = filter_sensor(sensor(None, Some(minute_logs())), Some(TEN + 180), Some(TEN + 300));
    let logs = r.logs.unwrap();
    let times: Vec<i64> = logs.iter().map(|l| l.timestamp).collect();
    assert_eq!(times, vec![TEN + 180, TEN + 240, TEN + 300]);
    assert_eq!(logs[0].temperature, 3);
}

#[test]
fn open_bounds_keep_everything_on_that_side() {
    let r = filter_sensor(sensor(None, Some(minute_logs())), None, None);
    assert_eq!(r.logs, Some(minute_logs()));
    let r = filter_sensor(sensor(None, Some(minute_logs())), Some(TEN + 540), None);
    assert_eq!(r.logs.unwrap().len(), 2);
    let r = filter_sensor(sensor(None, Some(minute_logs())), None, Some(TEN + 60));
    assert_eq!(r.logs.unwrap().len(), 2);
}

#[test]
fn breaches_outside_window_are_dropped() {
    let s = sensor(
        Some(vec![
            breach(0, 100),
            breach(100, 200),
            breach(150, 450),
            breach(300, 400),
            breach(400, 500),
            breach(600, 700),
        ]),
        None,
    );
    let r = filter_sensor(s, Some(200), Some(400));
    assert_eq!(
        r.breaches,
        Some(vec![breach(100, 200), breach(150, 450), breach(300, 400), breach(400, 500)])
    );
}

#[test]
fn emptied_lists_become_absent() {
    let s = sensor(Some(vec![breach(0, 100)]), Some(minute_logs()));
    let r = filter_sensor(s, Some(TEN + 1000), Some(TEN + 2000));
    assert_eq!(r.breaches, None);
    assert_eq!(r.logs, None);
    assert_eq!(r.serial, "s1");
    assert_eq!(r.name, "fridge");
    assert_eq!(r.last_connected_timestamp, Some(5));
    assert_eq!(r.log_interval, Some(60));
}

#[test]
fn absent_lists_stay_absent() {
    let r = filter_sensor(sensor(None, None), Some(0), Some(10));
    assert_eq!(r.breaches, None);
    assert_eq!(r.logs, None);
}
