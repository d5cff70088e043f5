//! Threshold configuration and the boundary rules it selects.
//!
//! All fractional parameters are fixed-point (see the crate doc): a z-score
//! multiplier of 3.0 is `30_000`, a significance level of 0.05 is `500`.
//! Boundaries use truncating division; a lower boundary below zero can
//! never be breached by the unsigned measurements and is recorded as zero.

use vstd::prelude::*;

use crate::baseline::StdDev;
use crate::SCALE;

verus! {

/// Which side of the baseline is monitored.
#[derive(Debug, Clone, Copy, PartialEq, Eq, Structural)]
pub enum Side {
    Left,
    Right,
    Both,
}

/// The side on which an alert fired.
#[derive(Debug, Clone, Copy, PartialEq, Eq, Structural)]
pub enum JsonSide {
    Left,
    Right,
}

/// The statistic test a threshold selects, with its fixed-point parameter:
/// a fixed boundary, a fraction of the baseline mean, a multiple of the
/// baseline standard deviation, or a batch significance test at a level.
#[derive(Debug, Clone, Copy, PartialEq, Eq, Structural)]
pub enum StatisticKind {
    Static(u64),
    Percentage(u64),
    ZScore(u64),
    TTest(u64),
}

/// Configured statistical rule for one (branch, testbed, metric kind);
/// read-only to the core.
#[derive(Debug)]
pub struct Threshold {
    pub branch: i32,
    pub testbed: i32,
    pub metric_kind: String,
    pub statistic: StatisticKind,
    pub side: Side,
}

/// Alert record: one benchmark's measurement breached its threshold
/// boundary. Immutable once created; persisting it is the caller's work.
#[derive(Debug)]
pub struct JsonAlert {
    pub report: i32,
    pub perf: Option<i32>,
    pub branch: i32,
    pub testbed: i32,
    pub benchmark: String,
    pub metric_kind: String,
    pub side: JsonSide,
    pub boundary: u64,
    pub outlier: u64,
}

/// Upper boundary of an incremental statistic over a baseline.
pub open spec fn spec_upper_boundary(st: StatisticKind, mean: int, std: int) -> int
    recommends
        !(st is TTest),
{
    match st {
        StatisticKind::Static(b) => b as int,
        StatisticKind::Percentage(p) => mean + (mean * p) / (SCALE as int),
        StatisticKind::ZScore(z) => mean + ((z as int) * std) / (SCALE as int),
        StatisticKind::TTest(_) => 0,
    }
}

/// Lower boundary of an incremental statistic over a baseline.
pub open spec fn spec_lower_boundary(st: StatisticKind, mean: int, std: int) -> int
    recommends
        !(st is TTest),
{
    match st {
        StatisticKind::Static(b) => b as int,
        StatisticKind::Percentage(p) => mean - (mean * p) / (SCALE as int),
        StatisticKind::ZScore(z) => mean - ((z as int) * std) / (SCALE as int),
        StatisticKind::TTest(_) => 0,
    }
}

/// Clamp an exact boundary into the representable range for the record.
pub open spec fn spec_sat64(x: int) -> u64 {
    if x < 0 {
        0u64
    } else if x > u64::MAX {
        u64::MAX
    } else {
        x as u64
    }
}

/// Breach decision against exact boundaries: left means observed below the
/// lower boundary, right means observed above the upper one; both monitors
/// each direction independently, and at most one side can fire.
pub open spec fn spec_breach(side: Side, lb: int, ub: int, observed: int) -> Option<
    (JsonSide, int),
> {
    match side {
        Side::Left => if observed < lb {
            Some((JsonSide::Left, lb))
        } else {
            None
        },
        Side::Right => if observed > ub {
            Some((JsonSide::Right, ub))
        } else {
            None
        },
        Side::Both => if observed < lb {
            Some((JsonSide::Left, lb))
        } else if observed > ub {
            Some((JsonSide::Right, ub))
        } else {
            None
        },
    }
}

/// Incremental decision for one benchmark: its baseline, the configured
/// statistic and side, and the observed value give at most one alert side
/// with its exact boundary.
pub open spec fn spec_incremental_alert(
    st: StatisticKind,
    side: Side,
    dev: StdDev,
    observed: u64,
) -> Option<(JsonSide, int)>
    recommends
        !(st is TTest),
{
    spec_breach(
        side,
        spec_lower_boundary(st, dev.mean as int, dev.std_dev as int),
        spec_upper_boundary(st, dev.mean as int, dev.std_dev as int),
        observed as int,
    )
}

/// Critical value (fixed-point) of the significance test at level `alpha`
/// (fixed-point), from the inverse-normal approximation; the level is
/// halved for two-sided monitoring. Only the tabulated levels are
/// supported: any other level is a configuration error.
pub open spec fn spec_crit(alpha: u64, side: Side) -> Option<int> {
    match side {
        Side::Both => if alpha == 2000 {
            Some(12816int)
        } else if alpha == 1000 {
            Some(16449int)
        } else if alpha == 500 {
            Some(19600int)
        } else if alpha == 200 {
            Some(23263int)
        } else if alpha == 100 {
            Some(25758int)
        } else {
            None
        },
        _ => if alpha == 1000 {
            Some(12816int)
        } else if alpha == 500 {
            Some(16449int)
        } else if alpha == 250 {
            Some(19600int)
        } else if alpha == 100 {
            Some(23263int)
        } else if alpha == 50 {
            Some(25758int)
        } else {
            None
        },
    }
}

/// Batch-test decision for one benchmark: the observed value is compared
/// against the baseline mean shifted by the critical value times the
/// standard deviation (so an all-equal history alerts on any deviation to
/// the monitored side).
pub open spec fn spec_t_alert(crit: int, side: Side, dev: StdDev, observed: u64) -> Option<
    (JsonSide, int),
> {
    spec_breach(
        side,
        dev.mean - (crit * dev.std_dev) / (SCALE as int),
        dev.mean + (crit * dev.std_dev) / (SCALE as int),
        observed as int,
    )
}

/// Critical value lookup for the batch significance test.
pub fn crit_value(alpha: u64, side: Side) -> (r: Option<u64>)
    ensures
        match r {
            Some(c) => spec_crit(alpha, side) == Some(c as int),
            None => spec_crit(alpha, side) is None,
        },
{
    match side {
        Side::Both => {
            if alpha == 2000 {
                Some(12816)
            } else if alpha == 1000 {
                Some(16449)
            } else if alpha == 500 {
                Some(19600)
            } else if alpha == 200 {
                Some(23263)
            } else if alpha == 100 {
                Some(25758)
            } else {
                None
            }
        },
        _ => {
            if alpha == 1000 {
                Some(12816)
            } else if alpha == 500 {
                Some(16449)
            } else if alpha == 250 {
                Some(19600)
            } else if alpha == 100 {
                Some(23263)
            } else if alpha == 50 {
                Some(25758)
            } else {
                None
            }
        },
    }
}

} // verus!
