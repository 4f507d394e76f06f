use vstd::prelude::*;

use crate::common::{Sensor, TemperatureBreach, TemperatureLog};

verus! {

/// `t` lies inside the inclusive window; an absent bound leaves that side open.
pub open spec fn in_window(t: int, start: Option<i64>, end: Option<i64>) -> bool {
    &&& start matches Some(s) ==> s <= t
    &&& end matches Some(e) ==> t <= e
}

/// Some part of `breach` lies inside the inclusive window.
pub open spec fn overlaps_window(breach: TemperatureBreach, start: Option<i64>, end: Option<i64>) -> bool {
    &&& start matches Some(s) ==> s <= breach.end_timestamp
    &&& end matches Some(e) ==> breach.start_timestamp <= e
}

/// The contents of an optional list.
pub open spec fn list_view<T>(list: Option<Vec<T>>) -> Option<Seq<T>> {
    match list {
        None => None,
        Some(v) => Some(v@),
    }
}

/// An empty list becomes an absent one.
pub open spec fn absent_if_empty<T>(s: Seq<T>) -> Option<Seq<T>> {
    if s.len() == 0 { None } else { Some(s) }
}

pub open spec fn listed<T>(list: Option<Seq<T>>, x: T) -> bool {
    list matches Some(s) && s.contains(x)
}

/// The samples that lie inside the window, in their order; absent if none do.
pub open spec fn logs_in_window(
    logs: Option<Seq<TemperatureLog>>,
    start: Option<i64>,
    end: Option<i64>,
) -> Option<Seq<TemperatureLog>> {
    match logs {
        None => None,
        Some(s) => absent_if_empty(s.filter(|l: TemperatureLog| in_window(l.timestamp as int, start, end))),
    }
}

/// The breaches that overlap the window, whole and in their order; absent if
/// none do.
pub open spec fn breaches_in_window(
    breaches: Option<Seq<TemperatureBreach>>,
    start: Option<i64>,
    end: Option<i64>,
) -> Option<Seq<TemperatureBreach>> {
    match breaches {
        None => None,
        Some(s) => absent_if_empty(s.filter(|b: TemperatureBreach| overlaps_window(b, start, end))),
    }
}

fn keep_logs_in_window(logs: Vec<TemperatureLog>, start: Option<i64>, end: Option<i64>) -> (r: Option<Vec<TemperatureLog>>)
    ensures
        list_view(r) == logs_in_window(Some(logs@), start, end),
{
    let ghost keep = |l: TemperatureLog| in_window(l.timestamp as int, start, end);
    let mut kept: Vec<TemperatureLog> = Vec::new();
    let mut i: usize = 0;
    while i < logs.len()
        invariant
            i <= logs.len(),
            keep == (|l: TemperatureLog| in_window(l.timestamp as int, start, end)),
            kept@ == logs@.subrange(0, i as int).filter(keep),
        decreases logs.len() - i,
    {
        let log = logs[i];
        proof {
            reveal(Seq::filter);
            assert(logs@.subrange(0, i + 1).drop_last() == logs@.subrange(0, i as int));
            assert(logs@.subrange(0, i + 1).last() == log);
        }
        let after_start = match start {
            None => true,
            Some(s) => s <= log.timestamp,
        };
        let before_end = match end {
            None => true,
            Some(e) => log.timestamp <= e,
        };
        if after_start && before_end {
            kept.push(log);
        }
        i = i + 1;
    }
    assert(logs@.subrange(0, logs.len() as int) == logs@);
    if kept.len() == 0 {
        None
    } else {
        Some(kept)
    }
}

fn keep_breaches_in_window(
    breaches: Vec<TemperatureBreach>,
    start: Option<i64>,
    end: Option<i64>,
) -> (r: Option<Vec<TemperatureBreach>>)
    ensures
        list_view(r) == breaches_in_window(Some(breaches@), start, end),
{
    let ghost keep = |b: TemperatureBreach| overlaps_window(b, start, end);
    let mut kept: Vec<TemperatureBreach> = Vec::new();
    let mut i: usize = 0;
    while i < breaches.len()
        invariant
            i <= breaches.len(),
            keep == (|b: TemperatureBreach| overlaps_window(b, start, end)),
            kept@ == breaches@.subrange(0, i as int).filter(keep),
        decreases breaches.len() - i,
    {
        let breach = breaches[i];
        proof {
            reveal(Seq::filter);
            assert(breaches@.subrange(0, i + 1).drop_last() == breaches@.subrange(0, i as int));
            assert(breaches@.subrange(0, i + 1).last() == breach);
        }
        let ends_after_start = match start {
            None => true,
            Some(s) => s <= breach.end_timestamp,
        };
        let starts_before_end = match end {
            None => true,
            Some(e) => breach.start_timestamp <= e,
        };
        if ends_after_start && starts_before_end {
            kept.push(breach);
        }
        i = i + 1;
    }
    assert(breaches@.subrange(0, breaches.len() as int) == breaches@);
    if kept.len() == 0 {
        None
    } else {
        Some(kept)
    }
}

/// Narrows a sensor's history to an inclusive window, either bound of which may
/// be absent.  A sample is kept when its timestamp lies in the window; a breach
/// is kept, with its bounds untouched, when any part of it lies in the window.
/// A list that ends up empty becomes absent; everything else is kept as it is.
pub fn filter_sensor(sensor: Sensor, start_timestamp: Option<i64>, end_timestamp: Option<i64>) -> (r: Sensor)
    ensures
        r.sensor_type == sensor.sensor_type,
        r.serial == sensor.serial,
        r.name == sensor.name,
        r.last_connected_timestamp == sensor.last_connected_timestamp,
        r.log_interval == sensor.log_interval,
        r.configs == sensor.configs,
        list_view(r.logs) == logs_in_window(list_view(sensor.logs), start_timestamp, end_timestamp),
        list_view(r.breaches) == breaches_in_window(
            list_view(sensor.breaches),
            start_timestamp,
            end_timestamp,
        ),
        sensor.well_formed() ==> r.well_formed(),
{
    let Sensor { sensor_type, serial, name, last_connected_timestamp, log_interval, breaches, configs, logs } =
        sensor;
    let logs = match logs {
        None => None,
        Some(l) => keep_logs_in_window(l, start_timestamp, end_timestamp),
    };
    let ghost old_breaches = breaches;
    let breaches = match breaches {
        None => None,
        Some(b) => keep_breaches_in_window(b, start_timestamp, end_timestamp),
    };
    proof {
        broadcast use vstd::seq_lib::group_filter_ensures;
        if let Some(b) = old_breaches {
            let keep = |x: TemperatureBreach| overlaps_window(x, start_timestamp, end_timestamp);
            assert forall|i: int| 0 <= i < b@.filter(keep).len() implies b@.contains(#[trigger] b@.filter(keep)[i]) by {
                b@.lemma_filter_contains_rev(keep, b@.filter(keep)[i]);
            }
        }
    }
    Sensor { sensor_type, serial, name, last_connected_timestamp, log_interval, breaches, configs, logs }
}

/// A sample of a sensor is in the filtered sensor exactly when its timestamp
/// lies in the window, an absent bound counting as unbounded on that side; the
/// filtered sensor holds no other sample.
pub proof fn lemma_filter_inclusion(
    sensor: Sensor,
    start: Option<i64>,
    end: Option<i64>,
    log: TemperatureLog,
)
    ensures
        listed(logs_in_window(list_view(sensor.logs), start, end), log) <==> listed(
            list_view(sensor.logs),
            log,
        ) && in_window(log.timestamp as int, start, end),
{
    broadcast use vstd::seq_lib::group_filter_ensures;
    if let Some(s) = list_view(sensor.logs) {
        let keep = |l: TemperatureLog| in_window(l.timestamp as int, start, end);
        if s.contains(log) && keep(log) {
            let i = choose|i: int| 0 <= i < s.len() && s[i] == log;
            s.lemma_filter_contains(keep, i);
        }
        if s.filter(keep).contains(log) {
            s.lemma_filter_contains_rev(keep, log);
            let i = choose|i: int| 0 <= i < s.filter(keep).len() && s.filter(keep)[i] == log;
            s.lemma_filter_pred(keep, i);
        }
    }
}

/// A breach of a sensor is in the filtered sensor, unchanged, exactly when some
/// part of it lies in the window, however far it reaches beyond the window.
pub proof fn lemma_filter_keeps_overlapping_breaches(
    sensor: Sensor,
    start: Option<i64>,
    end: Option<i64>,
    breach: TemperatureBreach,
)
    ensures
        listed(breaches_in_window(list_view(sensor.breaches), start, end), breach) <==> listed(
            list_view(sensor.breaches),
            breach,
        ) && overlaps_window(breach, start, end),
{
    broadcast use vstd::seq_lib::group_filter_ensures;
    if let Some(s) = list_view(sensor.breaches) {
        let keep = |b: TemperatureBreach| overlaps_window(b, start, end);
        if s.contains(breach) && keep(breach) {
            let i = choose|i: int| 0 <= i < s.len() && s[i] == breach;
            s.lemma_filter_contains(keep, i);
        }
        if s.filter(keep).contains(breach) {
            s.lemma_filter_contains_rev(keep, breach);
            let i = choose|i: int| 0 <= i < s.filter(keep).len() && s.filter(keep)[i] == breach;
            s.lemma_filter_pred(keep, i);
        }
    }
}

} // verus!
