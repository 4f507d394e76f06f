use vstd::prelude::*;

use crate::calendar::valid_timestamp;
use crate::common::{breach_between, breaching, is_breaching, TemperatureBreach, TemperatureBreachConfig, TemperatureLog};

verus! {

/// Samples `a` and `a + 1` both breach `config` and lie no more than one
/// interval apart, so they belong to the same run.
pub open spec fn joined(
    config: TemperatureBreachConfig,
    logs: Seq<TemperatureLog>,
    interval: int,
    a: int,
) -> bool {
    &&& breaching(config, logs[a].temperature)
    &&& breaching(config, logs[a + 1].temperature)
    &&& logs[a + 1].timestamp - logs[a].timestamp <= interval
}

/// The index of the first sample of the run that sample `j` belongs to.
pub open spec fn run_start(
    config: TemperatureBreachConfig,
    logs: Seq<TemperatureLog>,
    interval: int,
    j: int,
) -> int
    decreases j,
{
    if j <= 0 || !joined(config, logs, interval, j - 1) {
        j
    } else {
        run_start(config, logs, interval, j - 1)
    }
}

/// Sample `j` breaches and is the last sample of its run.
pub open spec fn run_end(config: TemperatureBreachConfig, logs: Seq<TemperatureLog>, interval: int, j: int) -> bool {
    breaching(config, logs[j].temperature) && (j + 1 == logs.len() || !joined(config, logs, interval, j))
}

/// The run ending at sample `j` lasts at least the configured duration.
pub open spec fn run_confirmed(
    config: TemperatureBreachConfig,
    logs: Seq<TemperatureLog>,
    interval: int,
    j: int,
) -> bool {
    run_end(config, logs, interval, j) && logs[j].timestamp - logs[run_start(config, logs, interval, j)].timestamp
        >= config.duration
}

proof fn lemma_run_start_bounds(config: TemperatureBreachConfig, logs: Seq<TemperatureLog>, interval: int, j: int)
    requires
        0 <= j,
    ensures
        0 <= run_start(config, logs, interval, j) <= j,
    decreases j,
{
    if j > 0 {
        lemma_run_start_bounds(config, logs, interval, j - 1);
    }
}

/// The first and last sample indices of the confirmed runs that end among
/// the first `n` samples, in order.
pub open spec fn confirmed_runs(
    config: TemperatureBreachConfig,
    logs: Seq<TemperatureLog>,
    interval: int,
    n: int,
) -> Seq<(int, int)>
    decreases n,
{
    if n <= 0 {
        Seq::empty()
    } else {
        let before = confirmed_runs(config, logs, interval, n - 1);
        if run_confirmed(config, logs, interval, n - 1) {
            before.push((run_start(config, logs, interval, n - 1), n - 1))
        } else {
            before
        }
    }
}

/// The breach that a run from sample `run.0` to sample `run.1` stands for.
pub open spec fn run_breach(
    config: TemperatureBreachConfig,
    logs: Seq<TemperatureLog>,
    run: (int, int),
) -> TemperatureBreach {
    breach_between(config.breach_type, logs[run.0].timestamp as int, logs[run.1].timestamp as int)
}

/// The breaches that the samples themselves show for `config`.
pub open spec fn detected_breaches(
    config: TemperatureBreachConfig,
    logs: Seq<TemperatureLog>,
    interval: int,
) -> Seq<TemperatureBreach> {
    confirmed_runs(config, logs, interval, logs.len() as int).map_values(
        |run: (int, int)| run_breach(config, logs, run),
    )
}

pub open spec fn valid_logs(logs: Seq<TemperatureLog>) -> bool {
    forall|i: int| 0 <= i < logs.len() ==> valid_timestamp(#[trigger] logs[i].timestamp as int)
}

fn is_joined(config: &TemperatureBreachConfig, logs: &Vec<TemperatureLog>, interval: i64, a: usize) -> (r: bool)
    requires
        a + 1 < logs.len(),
        valid_logs(logs@),
    ensures
        r == joined(*config, logs@, interval as int, a as int),
{
    is_breaching(config, logs[a].temperature) && is_breaching(config, logs[a + 1].temperature)
        && logs[a + 1].timestamp - logs[a].timestamp <= interval
}

/// Finds the maximal runs of consecutive breaching samples, a run ending at a
/// sample that does not breach or at a gap of more than `log_interval`, and
/// reports as a breach each run whose first and last samples lie at least
/// `config.duration` apart.  Runs may cross midnight.
pub fn detect_consecutive_breaches(
    config: &TemperatureBreachConfig,
    logs: &Vec<TemperatureLog>,
    log_interval: i64,
) -> (r: Vec<TemperatureBreach>)
    requires
        valid_logs(logs@),
    ensures
        r@ == detected_breaches(*config, logs@, log_interval as int),
{
    let ghost iv = log_interval as int;
    let mut found: Vec<TemperatureBreach> = Vec::new();
    let mut begin: usize = 0;
    let mut j: usize = 0;
    while j < logs.len()
        invariant
            j <= logs.len(),
            iv == log_interval as int,
            valid_logs(logs@),
            j > 0 ==> begin == run_start(*config, logs@, iv, j - 1),
            begin < logs.len() || j == 0,
            found@ == confirmed_runs(*config, logs@, iv, j as int).map_values(
                |run: (int, int)| run_breach(*config, logs@, run),
            ),
        decreases logs.len() - j,
    {
        if j == 0 || !is_joined(config, logs, log_interval, j - 1) {
            begin = j;
        }
        let ends = is_breaching(config, logs[j].temperature) && (j + 1 == logs.len() || !is_joined(
            config,
            logs,
            log_interval,
            j,
        ));
        let ghost before = confirmed_runs(*config, logs@, iv, j as int);
        assert(confirmed_runs(*config, logs@, iv, j + 1) == if run_confirmed(*config, logs@, iv, j as int) {
            before.push((begin as int, j as int))
        } else {
            before
        });
        if ends && logs[j].timestamp - logs[begin].timestamp >= config.duration {
            let start = logs[begin].timestamp;
            let end = logs[j].timestamp;
            found.push(
                TemperatureBreach {
                    breach_type: config.breach_type,
                    start_timestamp: start,
                    end_timestamp: end,
                    duration: end - start,
                    acknowledged: false,
                },
            );
            assert(before.push((begin as int, j as int)).map_values(
                |run: (int, int)| run_breach(*config, logs@, run),
            ) =~= before.map_values(|run: (int, int)| run_breach(*config, logs@, run)).push(
                run_breach(*config, logs@, (begin as int, j as int)),
            ));
        }
        j = j + 1;
    }
    found
}

proof fn lemma_runs_members(config: TemperatureBreachConfig, logs: Seq<TemperatureLog>, interval: int, n: int)
    ensures
        forall|k: int|
            0 <= k < confirmed_runs(config, logs, interval, n).len() ==> {
                let run = #[trigger] confirmed_runs(config, logs, interval, n)[k];
                &&& 0 <= run.1 < n
                &&& run_confirmed(config, logs, interval, run.1)
                &&& run.0 == run_start(config, logs, interval, run.1)
            },
        forall|k1: int, k2: int|
            0 <= k1 < k2 < confirmed_runs(config, logs, interval, n).len() ==> (#[trigger] confirmed_runs(
                config,
                logs,
                interval,
                n,
            )[k1]).1 < (#[trigger] confirmed_runs(config, logs, interval, n)[k2]).1,
        forall|j: int|
            0 <= j < n && run_confirmed(config, logs, interval, j) ==> confirmed_runs(config, logs, interval, n).contains(
                (run_start(config, logs, interval, j), j),
            ),
    decreases n,
{
    if n > 0 {
        lemma_runs_members(config, logs, interval, n - 1);
        let before = confirmed_runs(config, logs, interval, n - 1);
        let now = confirmed_runs(config, logs, interval, n);
        assert forall|j: int|
            0 <= j < n && run_confirmed(config, logs, interval, j) implies now.contains(
            (run_start(config, logs, interval, j), j),
        ) by {
            if j < n - 1 {
                let k = choose|k: int| 0 <= k < before.len() && before[k] == (run_start(config, logs, interval, j), j);
                assert(now[k] == before[k]);
            } else {
                assert(now[now.len() - 1] == (run_start(config, logs, interval, j), j));
            }
        }
    }
}

/// Among maximal runs of breaching samples, one that lasts less than the
/// configured duration is reported by no breach, and one that lasts at least
/// as long (exactly as long, in particular) is reported by exactly one: the
/// runs that are reported are told apart by their strictly increasing ends.
pub proof fn lemma_run_minimality(
    config: TemperatureBreachConfig,
    logs: Seq<TemperatureLog>,
    interval: int,
    j: int,
)
    requires
        0 <= j < logs.len(),
        run_end(config, logs, interval, j),
    ensures
        ({
            let runs = confirmed_runs(config, logs, interval, logs.len() as int);
            let run = (run_start(config, logs, interval, j), j);
            &&& logs[j].timestamp - logs[run.0].timestamp < config.duration ==> !runs.contains(run)
            &&& logs[j].timestamp - logs[run.0].timestamp >= config.duration ==> runs.contains(run)
            &&& forall|k1: int, k2: int| 0 <= k1 < k2 < runs.len() ==> (#[trigger] runs[k1]).1 < (#[trigger] runs[k2]).1
        }),
{
    lemma_runs_members(config, logs, interval, logs.len() as int);
    lemma_run_start_bounds(config, logs, interval, j);
    let runs = confirmed_runs(config, logs, interval, logs.len() as int);
    let run = (run_start(config, logs, interval, j), j);
    if runs.contains(run) {
        let k = choose|k: int| 0 <= k < runs.len() && runs[k] == run;
        assert(run_confirmed(config, logs, interval, runs[k].1));
    }
    if logs[j].timestamp - logs[run.0].timestamp >= config.duration {
        assert(run_confirmed(config, logs, interval, j));
        assert(runs.contains(run));
    }
}

proof fn lemma_runs_disjoint(
    config: TemperatureBreachConfig,
    logs: Seq<TemperatureLog>,
    interval: int,
    j1: int,
    j2: int,
)
    requires
        0 <= j1 < j2 < logs.len(),
        run_end(config, logs, interval, j1),
    ensures
        j1 < run_start(config, logs, interval, j2),
    decreases j2,
{
    if j2 - 1 > j1 && joined(config, logs, interval, j2 - 1) {
        lemma_runs_disjoint(config, logs, interval, j1, j2 - 1);
    }
}

/// Over samples in time order, the detected breaches come in order of their
/// starts.
pub proof fn lemma_detected_in_start_order(
    config: TemperatureBreachConfig,
    logs: Seq<TemperatureLog>,
    interval: int,
)
    requires
        forall|a: int, b: int| 0 <= a <= b < logs.len() ==> (#[trigger] logs[a]).timestamp <= (#[trigger] logs[b]).timestamp,
    ensures
        forall|k1: int, k2: int|
            0 <= k1 < k2 < detected_breaches(config, logs, interval).len() ==> (#[trigger] detected_breaches(
                config,
                logs,
                interval,
            )[k1]).start_timestamp <= (#[trigger] detected_breaches(config, logs, interval)[k2]).start_timestamp,
{
    let n = logs.len() as int;
    let runs = confirmed_runs(config, logs, interval, n);
    lemma_runs_members(config, logs, interval, n);
    assert forall|k1: int, k2: int| 0 <= k1 < k2 < runs.len() implies logs[runs[k1].0].timestamp
        <= logs[runs[k2].0].timestamp by {
        let (i1, j1) = runs[k1];
        let (i2, j2) = runs[k2];
        lemma_run_start_bounds(config, logs, interval, j1);
        lemma_run_start_bounds(config, logs, interval, j2);
        lemma_runs_disjoint(config, logs, interval, j1, j2);
    }
}

} // verus!
