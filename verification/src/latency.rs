//! Regression evaluator for one (branch, testbed, metric kind) per report.
//!
//! With no threshold configured there is nothing to do. A batch-test
//! threshold runs once over every benchmark of the report and is then
//! terminal: no evaluator instance exists afterwards, so no incremental
//! step can follow it. The other statistics build every baseline up front
//! and hold them immutable while each benchmark is evaluated independently.
//! A benchmark whose history gives no baseline is silently skipped:
//! sparse history disables detection, it is never an error. A history
//! value beyond the supported range is treated the same way here, by
//! design: the fixed-point representation has no non-finite values to
//! reject, the cap is a representation limit, and one benchmark's bad
//! data must not stop the others; a caller that wants the data error
//! instead builds its baselines through the checked constructor.

use vstd::prelude::*;

use crate::baseline::{spec_baseline, values_in_range, StdDev, MAX_HISTORY};
use crate::benchmarks::{spec_lookup, JsonBenchmarksMap};
use crate::error::ConfigError;
use crate::metric::JsonMetric;
use crate::threshold::{
    crit_value, spec_crit, spec_incremental_alert, spec_sat64, spec_t_alert, JsonAlert, JsonSide,
    Side, StatisticKind, Threshold,
};

verus! {

/// View of a benchmark-keyed baseline list.
pub open spec fn dev_list_view(v: Seq<(String, StdDev)>) -> Seq<(Seq<char>, StdDev)> {
    Seq::new(v.len(), |i: int| (v[i].0@, v[i].1))
}

/// View of a benchmark-keyed history list.
pub open spec fn hist_list_view(v: Seq<(String, Vec<u64>)>) -> Seq<(Seq<char>, Seq<u64>)> {
    Seq::new(v.len(), |i: int| (v[i].0@, v[i].1@))
}

/// Baseline of one history under the input limits: out-of-range histories
/// give none, like histories of fewer than two points.
pub open spec fn spec_checked_baseline(h: Seq<u64>) -> Option<StdDev> {
    if values_in_range(h) && h.len() <= MAX_HISTORY {
        spec_baseline(h)
    } else {
        None
    }
}

/// The history recorded for `name`, empty when none is.
pub open spec fn spec_history_of(hs: Seq<(Seq<char>, Seq<u64>)>, name: Seq<char>) -> Seq<u64> {
    match spec_lookup(hs, name) {
        Some(h) => h,
        None => Seq::empty(),
    }
}

/// Baselines for the benchmarks of the report, in report order, skipping
/// benchmarks without one.
pub open spec fn spec_deviations(
    ms: Seq<(Seq<char>, Seq<(Seq<char>, JsonMetric)>)>,
    hs: Seq<(Seq<char>, Seq<u64>)>,
) -> Seq<(Seq<char>, StdDev)>
    decreases ms.len(),
{
    if ms.len() == 0 {
        Seq::empty()
    } else {
        let prev = spec_deviations(ms.drop_last(), hs);
        let name = ms.last().0;
        match spec_checked_baseline(spec_history_of(hs, name)) {
            Some(b) => prev.push((name, b)),
            None => prev,
        }
    }
}

/// Batch-test alerts, in report order: one per benchmark that has a
/// latency metric, a baseline, and a breach; the tuple is (benchmark,
/// side, exact boundary, outlier).
pub open spec fn spec_t_alerts(
    ms: Seq<(Seq<char>, Seq<(Seq<char>, JsonMetric)>)>,
    devs: Seq<(Seq<char>, StdDev)>,
    crit: int,
    side: Side,
) -> Seq<(Seq<char>, JsonSide, int, u64)>
    decreases ms.len(),
{
    if ms.len() == 0 {
        Seq::empty()
    } else {
        let prev = spec_t_alerts(ms.drop_last(), devs, crit, side);
        let (name, kinds) = ms.last();
        match spec_lookup(kinds, crate::adapter_rust::latency_slug()) {
            None => prev,
            Some(metric) => match spec_lookup(devs, name) {
                None => prev,
                Some(dev) => match spec_t_alert(crit, side, dev, metric.value) {
                    Some((js, b)) => prev.push((name, js, b, metric.value)),
                    None => prev,
                },
            },
        }
    }
}

/// The alert records carry exactly the decided alerts, with the threshold's
/// identity and the report id, boundaries clamped into range.
pub open spec fn alerts_match(
    alerts: Seq<JsonAlert>,
    decided: Seq<(Seq<char>, JsonSide, int, u64)>,
    report: i32,
    branch: i32,
    testbed: i32,
    kind: Seq<char>,
) -> bool {
    &&& alerts.len() == decided.len()
    &&& forall|k: int|
        0 <= k < alerts.len() ==> {
            &&& (#[trigger] alerts[k]).report == report
            &&& alerts[k].perf is None
            &&& alerts[k].branch == branch
            &&& alerts[k].testbed == testbed
            &&& alerts[k].benchmark@ == decided[k].0
            &&& alerts[k].metric_kind@ == kind
            &&& alerts[k].side == decided[k].1
            &&& alerts[k].boundary == spec_sat64(decided[k].2)
            &&& alerts[k].outlier == decided[k].3
        }
}

/// Every batch alert names a benchmark of the report.
proof fn lemma_t_alerts_names(
    ms: Seq<(Seq<char>, Seq<(Seq<char>, JsonMetric)>)>,
    devs: Seq<(Seq<char>, StdDev)>,
    crit: int,
    side: Side,
)
    ensures
        forall|k: int|
            0 <= k < spec_t_alerts(ms, devs, crit, side).len() ==> exists|t: int|
                0 <= t < ms.len() && (#[trigger] spec_t_alerts(ms, devs, crit, side)[k]).0
                    == ms[t].0,
    decreases ms.len(),
{
    if ms.len() > 0 {
        lemma_t_alerts_names(ms.drop_last(), devs, crit, side);
        let prev = spec_t_alerts(ms.drop_last(), devs, crit, side);
        let all = spec_t_alerts(ms, devs, crit, side);
        assert forall|k: int| 0 <= k < all.len() implies exists|t: int|
            0 <= t < ms.len() && (#[trigger] all[k]).0 == ms[t].0 by {
            if k < prev.len() {
                assert(all[k] == prev[k]);
                let t = choose|t: int| 0 <= t < ms.drop_last().len() && prev[k].0 == ms.drop_last(
                )[t].0;
                assert(ms.drop_last()[t] == ms[t]);
                assert(0 <= t < ms.len() && all[k].0 == ms[t].0);
            } else {
                assert(all[k].0 == ms.last().0);
                assert(0 <= ms.len() - 1 < ms.len() && all[k].0 == ms[ms.len() - 1].0);
            }
        }
    }
}

/// Exactly one alert per breaching benchmark in a batch pass: with unique
/// benchmark names in the report, no two batch alerts name the same
/// benchmark.
pub proof fn lemma_one_alert_per_benchmark(
    ms: Seq<(Seq<char>, Seq<(Seq<char>, JsonMetric)>)>,
    devs: Seq<(Seq<char>, StdDev)>,
    crit: int,
    side: Side,
)
    requires
        crate::benchmarks::keys_unique(ms),
    ensures
        forall|i: int, j: int|
            0 <= i < j < spec_t_alerts(ms, devs, crit, side).len() ==> (#[trigger] spec_t_alerts(
                ms,
                devs,
                crit,
                side,
            )[i]).0 != (#[trigger] spec_t_alerts(ms, devs, crit, side)[j]).0,
    decreases ms.len(),
{
    if ms.len() > 0 {
        assert forall|a: int, b: int|
            0 <= a < b < ms.drop_last().len() implies ms.drop_last()[a].0 != ms.drop_last()[b].0 by {
            assert(ms.drop_last()[a] == ms[a]);
            assert(ms.drop_last()[b] == ms[b]);
        }
        lemma_one_alert_per_benchmark(ms.drop_last(), devs, crit, side);
        lemma_t_alerts_names(ms.drop_last(), devs, crit, side);
        let prev = spec_t_alerts(ms.drop_last(), devs, crit, side);
        let all = spec_t_alerts(ms, devs, crit, side);
        assert forall|i: int, j: int| 0 <= i < j < all.len() implies (#[trigger] all[i]).0 != (
        #[trigger] all[j]).0 by {
            if j < prev.len() {
                assert(all[i] == prev[i]);
                assert(all[j] == prev[j]);
            } else if j == prev.len() && all.len() == prev.len() + 1 {
                assert(all[i] == prev[i]);
                let t = choose|t: int| 0 <= t < ms.drop_last().len() && prev[i].0 == ms.drop_last(
                )[t].0;
                assert(ms.drop_last()[t] == ms[t]);
                assert(all[j].0 == ms.last().0);
                assert(ms[t].0 != ms[ms.len() - 1].0);
            }
        }
    }
}

/// Incremental evaluator: the threshold and the baselines built once per
/// report pass, read-only afterwards.
pub struct Latency {
    pub report_id: i32,
    pub threshold: Threshold,
    pub deviations: Vec<(String, StdDev)>,
}

fn lookup_dev<'a>(devs: &'a Vec<(String, StdDev)>, name: &String) -> (r: Option<&'a StdDev>)
    ensures
        match r {
            Some(d) => spec_lookup(dev_list_view(devs@), name@) == Some(*d),
            None => spec_lookup(dev_list_view(devs@), name@) is None,
        },
{
    let ghost view = dev_list_view(devs@);
    let mut i: usize = 0;
    while i < devs.len()
        invariant
            i <= devs@.len(),
            view == dev_list_view(devs@),
            forall|j: int| 0 <= j < i ==> view[j].0 != name@,
        decreases devs@.len() - i,
    {
        if devs[i].0 == *name {
            proof {
                crate::benchmarks::lemma_key_found(view, name@, i as int);
            }
            return Some(&devs[i].1);
        }
        i = i + 1;
    }
    proof {
        crate::benchmarks::lemma_key_absent(view, name@);
    }
    None
}

fn lookup_hist<'a>(hs: &'a Vec<(String, Vec<u64>)>, name: &String) -> (r: Option<&'a Vec<u64>>)
    ensures
        match r {
            Some(h) => spec_lookup(hist_list_view(hs@), name@) == Some(h@),
            None => spec_lookup(hist_list_view(hs@), name@) is None,
        },
{
    let ghost view = hist_list_view(hs@);
    let mut i: usize = 0;
    while i < hs.len()
        invariant
            i <= hs@.len(),
            view == hist_list_view(hs@),
            forall|j: int| 0 <= j < i ==> view[j].0 != name@,
        decreases hs@.len() - i,
    {
        if hs[i].0 == *name {
            proof {
                crate::benchmarks::lemma_key_found(view, name@, i as int);
            }
            return Some(&hs[i].1);
        }
        i = i + 1;
    }
    proof {
        crate::benchmarks::lemma_key_absent(view, name@);
    }
    None
}

/// Decision for one benchmark under an incremental statistic, with the
/// recorded boundary clamped into range.
fn incremental_decision(st: &StatisticKind, side: Side, dev: &StdDev, observed: u64) -> (r: Option<
    (JsonSide, u64),
>)
    requires
        !(st is TTest),
    ensures
        match (r, spec_incremental_alert(*st, side, *dev, observed)) {
            (Some((js, b)), Some((sjs, sb))) => js == sjs && b == spec_sat64(sb),
            (None, None) => true,
            _ => false,
        },
{
    let mean = dev.mean;
    let std = dev.std_dev;
    let (lb_neg, lb_mag, ub): (bool, u128, u128) = match st {
        StatisticKind::Static(b) => (false, *b as u128, *b as u128),
        StatisticKind::Percentage(p) => {
            proof {
                assert((mean as int) * (*p as int) <= u128::MAX) by (nonlinear_arith)
                    requires
                        0 <= mean <= u64::MAX,
                        0 <= *p <= u64::MAX,
                ;
            }
            let delta = ((mean as u128) * (*p as u128)) / (crate::SCALE as u128);
            if delta > mean as u128 {
                (true, delta - mean as u128, mean as u128 + delta)
            } else {
                (false, mean as u128 - delta, mean as u128 + delta)
            }
        },
        StatisticKind::ZScore(z) => {
            proof {
                assert((*z as int) * (std as int) <= u128::MAX) by (nonlinear_arith)
                    requires
                        0 <= std <= u64::MAX,
                        0 <= *z <= u64::MAX,
                ;
            }
            let delta = ((*z as u128) * (std as u128)) / (crate::SCALE as u128);
            if delta > mean as u128 {
                (true, delta - mean as u128, mean as u128 + delta)
            } else {
                (false, mean as u128 - delta, mean as u128 + delta)
            }
        },
        StatisticKind::TTest(_) => vstd::pervasive::unreached(),
    };
    let ghost lb_int: int = if lb_neg {
        -(lb_mag as int)
    } else {
        lb_mag as int
    };
    let obs = observed as u128;
    let left_breach = !lb_neg && obs < lb_mag;
    let right_breach = obs > ub;
    let lb_sat: u64 = if lb_neg {
        0
    } else if lb_mag > u64::MAX as u128 {
        u64::MAX
    } else {
        lb_mag as u64
    };
    let ub_sat: u64 = if ub > u64::MAX as u128 {
        u64::MAX
    } else {
        ub as u64
    };
    match side {
        Side::Left => if left_breach {
            Some((JsonSide::Left, lb_sat))
        } else {
            None
        },
        Side::Right => if right_breach {
            Some((JsonSide::Right, ub_sat))
        } else {
            None
        },
        Side::Both => if left_breach {
            Some((JsonSide::Left, lb_sat))
        } else if right_breach {
            Some((JsonSide::Right, ub_sat))
        } else {
            None
        },
    }
}

impl Latency {
    /// Batch significance pass: evaluate every benchmark of the report
    /// against its baseline at once. Runs only for a batch-test threshold;
    /// an untabulated significance level is a configuration error scoped to
    /// this metric kind.
    pub fn t_test(
        report_id: i32,
        threshold: &Threshold,
        metrics: &JsonBenchmarksMap,
        deviations: &Vec<(String, StdDev)>,
    ) -> (r: Result<Vec<JsonAlert>, ConfigError>)
        requires
            threshold.statistic is TTest,
        ensures
            match threshold.statistic {
                StatisticKind::TTest(alpha) => match spec_crit(alpha, threshold.side) {
                    None => r == Err::<Vec<JsonAlert>, ConfigError>(
                        ConfigError::UnsupportedSignificance { alpha },
                    ),
                    Some(crit) => match r {
                        Ok(alerts) => alerts_match(
                            alerts@,
                            spec_t_alerts(
                                metrics@,
                                dev_list_view(deviations@),
                                crit,
                                threshold.side,
                            ),
                            report_id,
                            threshold.branch,
                            threshold.testbed,
                            threshold.metric_kind@,
                        ),
                        Err(_) => false,
                    },
                },
                _ => true,
            },
    {
        let alpha = match threshold.statistic {
            StatisticKind::TTest(a) => a,
            _ => {
                return vstd::pervasive::unreached();
            },
        };
        let crit = match crit_value(alpha, threshold.side) {
            Some(c) => c,
            None => {
                return Err(ConfigError::UnsupportedSignificance { alpha });
            },
        };
        let ghost devsv = dev_list_view(deviations@);
        let ghost scrit = crit as int;
        let mut alerts: Vec<JsonAlert> = Vec::new();
        let mut i: usize = 0;
        while i < metrics.inner.len()
            invariant
                i <= metrics@.len(),
                metrics@.len() == metrics.inner@.len(),
                devsv == dev_list_view(deviations@),
                spec_crit(alpha, threshold.side) == Some(scrit),
                scrit == crit as int,
                crit <= u64::MAX,
                threshold.statistic == StatisticKind::TTest(alpha),
                alerts_match(
                    alerts@,
                    spec_t_alerts(metrics@.take(i as int), devsv, scrit, threshold.side),
                    report_id,
                    threshold.branch,
                    threshold.testbed,
                    threshold.metric_kind@,
                ),
            decreases metrics@.len() - i,
        {
            proof {
                assert(metrics@.take(i as int + 1).drop_last() =~= metrics@.take(i as int));
                assert(metrics@.take(i as int + 1).last() == metrics@[i as int]);
            }
            let pair = &metrics.inner[i];
            let ghost prev_alerts = alerts@;
            let metric_opt = pair.1.get(crate::benchmarks::LATENCY_SLUG);
            proof {
                reveal_strlit("latency");
                assert(crate::benchmarks::LATENCY_SLUG@ =~= crate::adapter_rust::latency_slug());
                assert(metrics@[i as int].1 == pair.1@);
                assert(metrics@[i as int].0 == pair.0@);
            }
            match metric_opt {
                None => {},
                Some(m) => {
                    match lookup_dev(deviations, &pair.0) {
                        None => {},
                        Some(dev) => {
                            let zst = StatisticKind::ZScore(crit);
                            proof {
                                assert(spec_incremental_alert(zst, threshold.side, *dev, m.value)
                                    == spec_t_alert(scrit, threshold.side, *dev, m.value));
                            }
                            match incremental_decision(&zst, threshold.side, dev, m.value) {
                                None => {},
                                Some((js, b)) => {
                                    let alert = JsonAlert {
                                        report: report_id,
                                        perf: None,
                                        branch: threshold.branch,
                                        testbed: threshold.testbed,
                                        benchmark: pair.0.clone(),
                                        metric_kind: threshold.metric_kind.clone(),
                                        side: js,
                                        boundary: b,
                                        outlier: m.value,
                                    };
                                    alerts.push(alert);
                                },
                            }
                        },
                    }
                },
            }
            i = i + 1;
        }
        proof {
            assert(metrics@.take(metrics@.len() as int) =~= metrics@);
        }
        Ok(alerts)
    }

    /// Start the evaluation pass for a report: nothing to do without a
    /// threshold; a batch-test threshold runs its one pass and is terminal,
    /// leaving no evaluator; the incremental statistics get an evaluator
    /// holding every baseline, and no alerts yet.
    pub fn new(
        report_id: i32,
        threshold: Option<Threshold>,
        metrics: &JsonBenchmarksMap,
        histories: &Vec<(String, Vec<u64>)>,
    ) -> (r: Result<(Option<Latency>, Vec<JsonAlert>), ConfigError>)
        ensures
            match threshold {
                None => match r {
                    Ok((opt, alerts)) => opt is None && alerts@.len() == 0,
                    Err(_) => false,
                },
                Some(th) => {
                    let devs = spec_deviations(metrics@, hist_list_view(histories@));
                    match th.statistic {
                        StatisticKind::TTest(alpha) => match spec_crit(alpha, th.side) {
                            None => r == Err::<(Option<Latency>, Vec<JsonAlert>), ConfigError>(
                                ConfigError::UnsupportedSignificance { alpha },
                            ),
                            Some(crit) => match r {
                                Ok((opt, alerts)) => opt is None && alerts_match(
                                    alerts@,
                                    spec_t_alerts(metrics@, devs, crit, th.side),
                                    report_id,
                                    th.branch,
                                    th.testbed,
                                    th.metric_kind@,
                                ),
                                Err(_) => false,
                            },
                        },
                        _ => match r {
                            Ok((Some(l), alerts)) => alerts@.len() == 0 && l.report_id == report_id
                                && l.threshold == th && dev_list_view(l.deviations@) == devs,
                            _ => false,
                        },
                    }
                },
            },
    {
        let th = match threshold {
            Some(th) => th,
            None => {
                return Ok((None, Vec::new()));
            },
        };
        let ghost hsv = hist_list_view(histories@);
        let mut deviations: Vec<(String, StdDev)> = Vec::new();
        let mut i: usize = 0;
        while i < metrics.inner.len()
            invariant
                i <= metrics@.len(),
                metrics@.len() == metrics.inner@.len(),
                hsv == hist_list_view(histories@),
                dev_list_view(deviations@) == spec_deviations(metrics@.take(i as int), hsv),
            decreases metrics@.len() - i,
        {
            proof {
                assert(metrics@.take(i as int + 1).drop_last() =~= metrics@.take(i as int));
                assert(metrics@.take(i as int + 1).last() == metrics@[i as int]);
            }
            let pair = &metrics.inner[i];
            proof {
                assert(metrics@[i as int].0 == pair.0@);
            }
            let ghost before = dev_list_view(deviations@);
            let empty_hist: Vec<u64> = Vec::new();
            let hist: &Vec<u64> = match lookup_hist(histories, &pair.0) {
                Some(h) => h,
                None => &empty_hist,
            };
            assert(hist@ =~= spec_history_of(hsv, pair.0@));
            match StdDev::try_new(hist) {
                Ok(Some(b)) => {
                    deviations.push((pair.0.clone(), b));
                    assert(dev_list_view(deviations@) =~= before.push((pair.0@, b)));
                },
                Ok(None) => {
                    assert(spec_checked_baseline(hist@) is None);
                },
                Err(_) => {
                    assert(spec_checked_baseline(hist@) is None);
                },
            }
            i = i + 1;
        }
        proof {
            assert(metrics@.take(metrics@.len() as int) =~= metrics@);
        }
        match th.statistic {
            StatisticKind::TTest(_) => {
                let alerts = Self::t_test(report_id, &th, metrics, &deviations)?;
                Ok((None, alerts))
            },
            _ => Ok((Some(Latency { report_id, threshold: th, deviations }), Vec::new())),
        }
    }

    /// Incremental step: evaluate one benchmark's observed latency against
    /// its baseline under this evaluator's threshold, independently of
    /// every other benchmark. No baseline means no detection and no alert.
    pub fn z_score(&self, perf_id: i32, benchmark_name: &str, latency: u64) -> (r: Option<
        JsonAlert,
    >)
        requires
            !(self.threshold.statistic is TTest),
        ensures
            match spec_lookup(dev_list_view(self.deviations@), benchmark_name@) {
                None => r is None,
                Some(dev) => match (
                    r,
                    spec_incremental_alert(
                        self.threshold.statistic,
                        self.threshold.side,
                        dev,
                        latency,
                    ),
                ) {
                    (Some(a), Some((js, b))) => a.report == self.report_id && a.perf == Some(
                        perf_id,
                    ) && a.branch == self.threshold.branch && a.testbed == self.threshold.testbed
                        && a.benchmark@ == benchmark_name@ && a.metric_kind@
                        == self.threshold.metric_kind@ && a.side == js && a.boundary == spec_sat64(
                        b,
                    ) && a.outlier == latency,
                    (None, None) => true,
                    _ => false,
                },
            },
    {
        let name = benchmark_name.to_owned();
        let dev = match lookup_dev(&self.deviations, &name) {
            Some(d) => d,
            None => {
                return None;
            },
        };
        match incremental_decision(&self.threshold.statistic, self.threshold.side, dev, latency) {
            None => None,
            Some((js, b)) => Some(
                JsonAlert {
                    report: self.report_id,
                    perf: Some(perf_id),
                    branch: self.threshold.branch,
                    testbed: self.threshold.testbed,
                    benchmark: name,
                    metric_kind: self.threshold.metric_kind.clone(),
                    side: js,
                    boundary: b,
                    outlier: latency,
                },
            ),
        }
    }
}

} // verus!
