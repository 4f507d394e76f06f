use vstd::prelude::*;

use crate::calendar::{
    day_end, day_start, midnight_before, valid_timestamp, MAX_TIMESTAMP, SECONDS_PER_DAY,
};
use crate::common::{breach_between, breaching, is_breaching, TemperatureBreach, TemperatureBreachConfig, TemperatureLog};

verus! {

pub open spec fn max_int(a: int, b: int) -> int {
    if a >= b { a } else { b }
}

pub open spec fn min_int(a: int, b: int) -> int {
    if a <= b { a } else { b }
}

pub open spec fn abs_int(a: int) -> int {
    if a < 0 { -a } else { a }
}

/// Where a cumulative breach starts: the configured delay before the trigger,
/// but never before the trigger's midnight.
pub open spec fn reconstructed_start(trigger: int, config_duration: int) -> int {
    max_int(trigger - config_duration, day_start(trigger))
}

/// Where a cumulative breach ends: the total duration after its start (none if
/// the total is not positive), but never after the next midnight.
pub open spec fn reconstructed_end(trigger: int, config_duration: int, total_duration: int) -> int {
    min_int(
        reconstructed_start(trigger, config_duration) + max_int(total_duration, 0),
        day_end(trigger),
    )
}

/// The breach that a trigger and a day's total duration stand for.
pub open spec fn reconstructed_breach(
    config: TemperatureBreachConfig,
    trigger: int,
    total_duration: int,
) -> TemperatureBreach {
    breach_between(
        config.breach_type,
        reconstructed_start(trigger, config.duration as int),
        reconstructed_end(trigger, config.duration as int, total_duration),
    )
}

/// Rebuilds the bounds of a cumulative breach from the time its alarm was
/// triggered and the total time spent in breach that day.
pub fn reconstruct_cumulative_breach(
    config: &TemperatureBreachConfig,
    trigger_timestamp: i64,
    total_duration: i64,
) -> (r: TemperatureBreach)
    requires
        valid_timestamp(trigger_timestamp as int),
        config.duration >= 0,
    ensures
        r == reconstructed_breach(*config, trigger_timestamp as int, total_duration as int),
        day_start(trigger_timestamp as int) <= r.start_timestamp <= trigger_timestamp,
        r.start_timestamp <= r.end_timestamp <= day_end(trigger_timestamp as int),
{
    let midnight = midnight_before(trigger_timestamp);
    let next_midnight = midnight + SECONDS_PER_DAY;
    let start = if config.duration >= trigger_timestamp - midnight {
        midnight
    } else {
        trigger_timestamp - config.duration
    };
    let end = if total_duration <= 0 {
        start
    } else if total_duration >= next_midnight - start {
        next_midnight
    } else {
        start + total_duration
    };
    TemperatureBreach {
        breach_type: config.breach_type,
        start_timestamp: start,
        end_timestamp: end,
        duration: end - start,
        acknowledged: false,
    }
}

/// A sample that lies in the day starting at `midnight` and breaches `config`.
pub open spec fn counts_on_day(config: TemperatureBreachConfig, log: TemperatureLog, midnight: int) -> bool {
    midnight <= log.timestamp < midnight + SECONDS_PER_DAY && breaching(config, log.temperature)
}

/// The earliest and latest timestamps of the samples in `logs` that breach
/// `config` on the day starting at `midnight`; `None` when there is none.
pub open spec fn breaching_span(
    config: TemperatureBreachConfig,
    logs: Seq<TemperatureLog>,
    midnight: int,
) -> Option<(int, int)>
    decreases logs.len(),
{
    if logs.len() == 0 {
        None
    } else {
        let before = breaching_span(config, logs.drop_last(), midnight);
        let t = logs.last().timestamp as int;
        if counts_on_day(config, logs.last(), midnight) {
            match before {
                None => Some((t, t)),
                Some((first, last)) => Some((min_int(first, t), max_int(last, t))),
            }
        } else {
            before
        }
    }
}

/// Where the corrected breach starts: widened to the first breaching sample,
/// snapped to midnight when that sample is within one interval of it, and
/// moved up to the sample when the breach would otherwise start more than one
/// interval before it.  Each step sees the previous one's result.
pub open spec fn corrected_start(start: int, first: int, midnight: int, interval: int) -> int {
    let widened = if first < start { first } else { start };
    let snapped = if abs_int(first - midnight) <= interval { midnight } else { widened };
    if first - snapped > interval { first } else { snapped }
}

/// Where the corrected breach ends; the mirror image of `corrected_start`.
pub open spec fn corrected_end(end: int, last: int, next_midnight: int, interval: int) -> int {
    let widened = if last > end { last } else { end };
    let snapped = if abs_int(next_midnight - last) <= interval { next_midnight } else { widened };
    if snapped - last > interval { last } else { snapped }
}

/// What the log-assisted correction makes of `breach`.
pub open spec fn corrected_breach(
    breach: TemperatureBreach,
    config: TemperatureBreachConfig,
    logs: Seq<TemperatureLog>,
    interval: int,
) -> TemperatureBreach {
    let midnight = day_start(breach.start_timestamp as int);
    match breaching_span(config, logs, midnight) {
        None => breach,
        Some((first, last)) => {
            let start = corrected_start(breach.start_timestamp as int, first, midnight, interval);
            let end = corrected_end(breach.end_timestamp as int, last, midnight + SECONDS_PER_DAY, interval);
            TemperatureBreach {
                start_timestamp: start as i64,
                end_timestamp: end as i64,
                duration: (end - start) as i64,
                ..breach
            }
        },
    }
}

/// The bounds that a correction may handle: a start that the calendar takes
/// and an end no more than a day beyond that range.
pub open spec fn correctable(breach: TemperatureBreach) -> bool {
    &&& valid_timestamp(breach.start_timestamp as int)
    &&& -MAX_TIMESTAMP - SECONDS_PER_DAY <= breach.end_timestamp <= MAX_TIMESTAMP + SECONDS_PER_DAY
}

proof fn lemma_span_in_day(config: TemperatureBreachConfig, logs: Seq<TemperatureLog>, midnight: int)
    ensures
        breaching_span(config, logs, midnight) matches Some((first, last)) ==> midnight <= first
            <= last < midnight + SECONDS_PER_DAY,
    decreases logs.len(),
{
    if logs.len() > 0 {
        lemma_span_in_day(config, logs.drop_last(), midnight);
    }
}

/// The earliest and latest breaching samples of the day starting at `midnight`.
fn find_breaching_span(
    config: &TemperatureBreachConfig,
    logs: &Vec<TemperatureLog>,
    midnight: i64,
) -> (r: Option<(i64, i64)>)
    requires
        -MAX_TIMESTAMP - SECONDS_PER_DAY <= midnight <= MAX_TIMESTAMP,
    ensures
        match r {
            None => breaching_span(*config, logs@, midnight as int) is None,
            Some((first, last)) => breaching_span(*config, logs@, midnight as int) == Some(
                (first as int, last as int),
            ),
        },
{
    let next_midnight = midnight + SECONDS_PER_DAY;
    let mut span: Option<(i64, i64)> = None;
    let mut i: usize = 0;
    while i < logs.len()
        invariant
            i <= logs.len(),
            next_midnight == midnight + SECONDS_PER_DAY,
            match span {
                None => breaching_span(*config, logs@.subrange(0, i as int), midnight as int) is None,
                Some((first, last)) => breaching_span(*config, logs@.subrange(0, i as int), midnight as int)
                    == Some((first as int, last as int)),
            },
        decreases logs.len() - i,
    {
        let log = logs[i];
        assert(logs@.subrange(0, i + 1).drop_last() == logs@.subrange(0, i as int));
        if midnight <= log.timestamp && log.timestamp < next_midnight && is_breaching(config, log.temperature) {
            span = match span {
                None => Some((log.timestamp, log.timestamp)),
                Some((first, last)) => Some((
                    if log.timestamp < first { log.timestamp } else { first },
                    if log.timestamp > last { log.timestamp } else { last },
                )),
            };
        }
        i = i + 1;
    }
    assert(logs@.subrange(0, logs.len() as int) == logs@);
    span
}

/// Refines a reconstructed cumulative breach with the samples of its day: the
/// first and last samples that breach `config` move its bounds as
/// `corrected_start` and `corrected_end` say.  Without such a sample the breach
/// is returned as it is.
pub fn correct_cumulative_breach(
    breach: &TemperatureBreach,
    config: &TemperatureBreachConfig,
    logs: &Vec<TemperatureLog>,
    log_interval: i64,
) -> (r: TemperatureBreach)
    requires
        correctable(*breach),
    ensures
        r == corrected_breach(*breach, *config, logs@, log_interval as int),
{
    let midnight = midnight_before(breach.start_timestamp);
    let next_midnight = midnight + SECONDS_PER_DAY;
    match find_breaching_span(config, logs, midnight) {
        None => *breach,
        Some((first, last)) => {
            proof {
                lemma_span_in_day(*config, logs@, midnight as int);
            }
            let widened_start = if first < breach.start_timestamp { first } else { breach.start_timestamp };
            let near_midnight = if first >= midnight { first - midnight <= log_interval } else { midnight - first <= log_interval };
            let snapped_start = if near_midnight { midnight } else { widened_start };
            let start = if first - snapped_start > log_interval { first } else { snapped_start };

            let widened_end = if last > breach.end_timestamp { last } else { breach.end_timestamp };
            let near_next_midnight = next_midnight - last <= log_interval;
            let snapped_end = if near_next_midnight { next_midnight } else { widened_end };
            let end = if snapped_end - last > log_interval { last } else { snapped_end };
            TemperatureBreach {
                breach_type: breach.breach_type,
                start_timestamp: start,
                end_timestamp: end,
                duration: end - start,
                acknowledged: breach.acknowledged,
            }
        },
    }
}

/// Rebuilds a cumulative breach from its trigger and the day's total duration,
/// then refines it with the samples of that day.
pub fn reconstruct_logged_cumulative_breach(
    config: &TemperatureBreachConfig,
    trigger_timestamp: i64,
    total_duration: i64,
    logs: &Vec<TemperatureLog>,
    log_interval: i64,
) -> (r: TemperatureBreach)
    requires
        valid_timestamp(trigger_timestamp as int),
        valid_timestamp(trigger_timestamp - SECONDS_PER_DAY),
        config.duration >= 0,
    ensures
        r == corrected_breach(
            reconstructed_breach(*config, trigger_timestamp as int, total_duration as int),
            *config,
            logs@,
            log_interval as int,
        ),
{
    let breach = reconstruct_cumulative_breach(config, trigger_timestamp, total_duration);
    correct_cumulative_breach(&breach, config, logs, log_interval)
}

/// A breach whose configured delay reaches back past the trigger's midnight
/// starts exactly at that midnight, never earlier.
pub proof fn lemma_start_clamped_to_midnight(trigger: int, config_duration: int)
    requires
        trigger - config_duration < day_start(trigger),
    ensures
        reconstructed_start(trigger, config_duration) == day_start(trigger),
{
}

/// A breach whose total duration reaches past the next midnight ends exactly
/// at that midnight.
pub proof fn lemma_end_clamped_to_next_midnight(trigger: int, config_duration: int, total_duration: int)
    requires
        reconstructed_start(trigger, config_duration) + total_duration > day_end(trigger),
    ensures
        reconstructed_end(trigger, config_duration, total_duration) == day_end(trigger),
{
}

proof fn lemma_span_bounds(config: TemperatureBreachConfig, logs: Seq<TemperatureLog>, midnight: int)
    ensures
        breaching_span(config, logs, midnight) is None ==> forall|i: int|
            0 <= i < logs.len() ==> !counts_on_day(config, #[trigger] logs[i], midnight),
        breaching_span(config, logs, midnight) matches Some((first, last)) ==> forall|i: int|
            0 <= i < logs.len() && counts_on_day(config, #[trigger] logs[i], midnight) ==> first
                <= logs[i].timestamp <= last,
    decreases logs.len(),
{
    if logs.len() > 0 {
        lemma_span_bounds(config, logs.drop_last(), midnight);
        assert forall|i: int| 0 <= i < logs.len() - 1 implies #[trigger] logs[i] == logs.drop_last()[i] by {}
    }
}

/// Correcting a breach a second time, with the same samples and interval,
/// changes nothing.
pub proof fn lemma_correction_idempotent(
    breach: TemperatureBreach,
    config: TemperatureBreachConfig,
    logs: Seq<TemperatureLog>,
    interval: int,
)
    requires
        correctable(breach),
    ensures
        corrected_breach(corrected_breach(breach, config, logs, interval), config, logs, interval)
            == corrected_breach(breach, config, logs, interval),
{
    let midnight = day_start(breach.start_timestamp as int);
    lemma_span_in_day(config, logs, midnight);
    let once = corrected_breach(breach, config, logs, interval);
    if let Some((first, last)) = breaching_span(config, logs, midnight) {
        assert(midnight <= once.start_timestamp < midnight + SECONDS_PER_DAY);
        assert(day_start(once.start_timestamp as int) == midnight) by {
            let s = once.start_timestamp as int;
            assert(s % SECONDS_PER_DAY as int == s - midnight) by (nonlinear_arith)
                requires
                    midnight <= s < midnight + 86400,
                    midnight == breach.start_timestamp - breach.start_timestamp % 86400,
            {
                assert(midnight % 86400 == 0) by (nonlinear_arith)
                    requires midnight == breach.start_timestamp - breach.start_timestamp % 86400;
            }
        }
    }
}

/// The correction never leaves a breaching sample of the day outside the
/// breach, never reaches more than one interval beyond the first and last of
/// them, and widens the breach on each side where such a sample lay outside it.
pub proof fn lemma_correction_covers_breaching_samples(
    breach: TemperatureBreach,
    config: TemperatureBreachConfig,
    logs: Seq<TemperatureLog>,
    interval: int,
)
    requires
        correctable(breach),
        interval >= 0,
    ensures
        ({
            let midnight = day_start(breach.start_timestamp as int);
            let r = corrected_breach(breach, config, logs, interval);
            breaching_span(config, logs, midnight) matches Some((first, last)) ==> {
                &&& first < breach.start_timestamp ==> r.start_timestamp <= first
                &&& last > breach.end_timestamp ==> r.end_timestamp >= last
                &&& first < breach.start_timestamp && last > breach.end_timestamp ==> r.start_timestamp
                    <= breach.start_timestamp && breach.end_timestamp <= r.end_timestamp
                &&& first - interval <= r.start_timestamp <= first
                &&& last <= r.end_timestamp <= last + interval
                &&& forall|i: int|
                    0 <= i < logs.len() && counts_on_day(config, #[trigger] logs[i], midnight)
                        ==> r.start_timestamp <= logs[i].timestamp <= r.end_timestamp
            }
        }),
{
    let midnight = day_start(breach.start_timestamp as int);
    lemma_span_in_day(config, logs, midnight);
    lemma_span_bounds(config, logs, midnight);
}

} // verus!
