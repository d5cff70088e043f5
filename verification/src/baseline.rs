//! Historical baseline: mean and Bessel-corrected standard deviation of the
//! past values of one (branch, testbed, benchmark, metric kind).
//!
//! Values are fixed-point (see the crate doc), so the statistics are exact
//! integer arithmetic: the mean truncates, the variance divides the summed
//! squared deviations from that mean by N − 1, and the standard deviation
//! is the integer square root of the variance.

use vstd::prelude::*;

verus! {

/// Largest value a baseline may be built from: keeps every intermediate of
/// the variance inside 128 bits.
pub const MAX_MEASURE: u64 = 0x100000000000000;

/// Longest history a baseline may be built from.
pub const MAX_HISTORY: usize = 32768;

/// Sum of the values.
pub open spec fn spec_sum_values(s: Seq<u64>) -> int
    decreases s.len(),
{
    if s.len() == 0 {
        0
    } else {
        spec_sum_values(s.drop_last()) + s.last()
    }
}

/// Truncating mean of the values.
pub open spec fn spec_mean_value(s: Seq<u64>) -> int
    recommends
        s.len() > 0,
{
    spec_sum_values(s) / s.len() as int
}

/// Sum of squared deviations from `mean`.
pub open spec fn spec_sq_dev_sum(s: Seq<u64>, mean: int) -> int
    decreases s.len(),
{
    if s.len() == 0 {
        0
    } else {
        spec_sq_dev_sum(s.drop_last(), mean) + (s.last() - mean) * (s.last() - mean)
    }
}

/// Bessel-corrected variance: squared deviations over N − 1.
pub open spec fn spec_variance(s: Seq<u64>) -> int
    recommends
        s.len() >= 2,
{
    spec_sq_dev_sum(s, spec_mean_value(s)) / (s.len() - 1) as int
}

/// `r` is the integer square root of `x`.
pub open spec fn is_isqrt(x: int, r: int) -> bool {
    r >= 0 && r * r <= x && (r + 1) * (r + 1) > x
}

/// Integer square root, as a function.
pub open spec fn spec_isqrt(x: nat) -> nat
    decreases x,
{
    if x == 0 {
        0
    } else {
        let r = spec_isqrt((x - 1) as nat);
        if (r + 1) * (r + 1) <= x {
            r + 1
        } else {
            r
        }
    }
}

/// `spec_isqrt` satisfies the square-root bounds.
pub proof fn lemma_spec_isqrt(x: nat)
    ensures
        is_isqrt(x as int, spec_isqrt(x) as int),
    decreases x,
{
    if x > 0 {
        lemma_spec_isqrt((x - 1) as nat);
        let r = spec_isqrt((x - 1) as nat);
        if (r + 1) * (r + 1) <= x {
            assert((r + 2) * (r + 2) > x as int) by (nonlinear_arith)
                requires
                    r >= 0,
                    (r + 1) * (r + 1) > x - 1,
            ;
        }
    }
}

/// The integer square root is unique.
pub proof fn lemma_isqrt_unique(x: int, a: int, b: int)
    requires
        is_isqrt(x, a),
        is_isqrt(x, b),
    ensures
        a == b,
{
    if a < b {
        assert(b * b > x) by (nonlinear_arith)
            requires
                0 <= a,
                a + 1 <= b,
                (a + 1) * (a + 1) > x,
        ;
    }
    if b < a {
        assert(a * a > x) by (nonlinear_arith)
            requires
                0 <= b,
                b + 1 <= a,
                (b + 1) * (b + 1) > x,
        ;
    }
}

/// Integer square root by bisection.
fn isqrt_u128(x: u128) -> (r: u128)
    ensures
        r as int == spec_isqrt(x as nat),
        is_isqrt(x as int, r as int),
{
    let mut lo: u128 = 0;
    let mut hi: u128 = 0x10000000000000000u128;
    proof {
        assert((hi as int) * (hi as int) > x as int) by (nonlinear_arith)
            requires
                hi == 0x10000000000000000u128,
                x <= u128::MAX,
        ;
    }
    while lo + 1 < hi
        invariant
            0 <= lo < hi <= 0x10000000000000000u128,
            (lo as int) * (lo as int) <= x as int,
            (hi as int) * (hi as int) > x as int,
        decreases hi - lo,
    {
        let mid = lo + (hi - lo) / 2;
        proof {
            assert((mid as int) * (mid as int) < 0x100000000000000000000000000000000int)
                by (nonlinear_arith)
                requires
                    0 <= mid < 0x10000000000000000u128,
            ;
        }
        if mid * mid <= x {
            lo = mid;
        } else {
            hi = mid;
        }
    }
    proof {
        assert(is_isqrt(x as int, lo as int));
        lemma_spec_isqrt(x as nat);
        lemma_isqrt_unique(x as int, lo as int, spec_isqrt(x as nat) as int);
    }
    lo
}

/// All values are small enough to feed a baseline.
pub open spec fn values_in_range(s: Seq<u64>) -> bool {
    forall|i: int| 0 <= i < s.len() ==> #[trigger] s[i] <= MAX_MEASURE
}

/// The baseline of a history, if it has one: none below two points (the
/// Bessel correction needs N ≥ 2).
pub open spec fn spec_baseline(s: Seq<u64>) -> Option<StdDev> {
    if s.len() < 2 {
        None
    } else {
        Some(
            StdDev {
                mean: spec_mean_value(s) as u64,
                std_dev: spec_isqrt(spec_variance(s) as nat) as u64,
                count: s.len() as usize,
            },
        )
    }
}

/// Baseline statistics for one (benchmark, metric kind), computed once per
/// evaluation pass and read-only afterwards.
#[derive(Debug, Clone, Copy, PartialEq, Eq, Structural)]
pub struct StdDev {
    pub mean: u64,
    pub std_dev: u64,
    pub count: usize,
}

impl StdDev {
    /// Build the baseline from history: nothing (not an error) when there
    /// are fewer than two points.
    pub fn new(history: &Vec<u64>) -> (r: Option<StdDev>)
        requires
            values_in_range(history@),
            history@.len() <= MAX_HISTORY,
        ensures
            r == spec_baseline(history@),
    {
        let n = history.len();
        if n < 2 {
            return None;
        }
        let mut sum: u128 = 0;
        let mut i: usize = 0;
        while i < n
            invariant
                n == history@.len(),
                2 <= n <= MAX_HISTORY,
                values_in_range(history@),
                i <= n,
                sum == spec_sum_values(history@.take(i as int)),
                sum <= (i as int) * (MAX_MEASURE as int),
            decreases n - i,
        {
            proof {
                assert(history@.take(i as int + 1).drop_last() =~= history@.take(i as int));
                assert(history@.take(i as int + 1).last() == history@[i as int]);
                assert(history@[i as int] <= MAX_MEASURE);
                assert((i as int) * (MAX_MEASURE as int) <= (MAX_HISTORY as int) * (
                MAX_MEASURE as int)) by (nonlinear_arith)
                    requires
                        0 <= i <= MAX_HISTORY,
                ;
                assert((i as int + 1) * (MAX_MEASURE as int) == (i as int) * (MAX_MEASURE as int)
                    + MAX_MEASURE as int) by (nonlinear_arith);
            }
            sum = sum + (history[i] as u128);
            i = i + 1;
        }
        proof {
            assert(history@.take(n as int) =~= history@);
        }
        let mean128 = sum / (n as u128);
        proof {
            assert(mean128 <= sum);
            assert(sum <= (n as int) * (MAX_MEASURE as int));
            assert((n as int) * (MAX_MEASURE as int) <= (MAX_HISTORY as int) * (
            MAX_MEASURE as int)) by (nonlinear_arith)
                requires
                    2 <= n <= MAX_HISTORY,
            ;
            assert(mean128 as int == spec_mean_value(history@));
            assert(spec_mean_value(history@) <= MAX_MEASURE as int) by {
                vstd::arithmetic::div_mod::lemma_div_is_ordered(
                    sum as int,
                    (n as int) * (MAX_MEASURE as int),
                    n as int,
                );
                vstd::arithmetic::div_mod::lemma_div_multiples_vanish(
                    MAX_MEASURE as int,
                    n as int,
                );
            }
        }
        let mean = mean128 as u64;
        let ghost m = mean as int;
        let mut sq: u128 = 0;
        let mut j: usize = 0;
        while j < n
            invariant
                n == history@.len(),
                2 <= n <= MAX_HISTORY,
                values_in_range(history@),
                j <= n,
                m == mean as int,
                mean <= MAX_MEASURE,
                sq == spec_sq_dev_sum(history@.take(j as int), m),
                sq <= (j as int) * ((MAX_MEASURE as int) * (MAX_MEASURE as int)),
            decreases n - j,
        {
            proof {
                assert(history@.take(j as int + 1).drop_last() =~= history@.take(j as int));
                assert(history@.take(j as int + 1).last() == history@[j as int]);
                assert(history@[j as int] <= MAX_MEASURE);
            }
            let v = history[j];
            let d: u64 = if v >= mean {
                v - mean
            } else {
                mean - v
            };
            proof {
                assert((d as int) * (d as int) <= (MAX_MEASURE as int) * (MAX_MEASURE as int))
                    by (nonlinear_arith)
                    requires
                        0 <= d <= MAX_MEASURE,
                ;
            }
            let dsq: u128 = (d as u128) * (d as u128);
            proof {
                assert(dsq == (v - m) * (v - m)) by (nonlinear_arith)
                    requires
                        dsq == (d as int) * (d as int),
                        d == if v >= m {
                            v - m
                        } else {
                            m - v
                        },
                ;
                assert(dsq <= (MAX_MEASURE as int) * (MAX_MEASURE as int)) by (nonlinear_arith)
                    requires
                        dsq == (d as int) * (d as int),
                        0 <= d <= MAX_MEASURE,
                ;
                assert((j as int + 1) * ((MAX_MEASURE as int) * (MAX_MEASURE as int)) == (
                j as int) * ((MAX_MEASURE as int) * (MAX_MEASURE as int)) + (MAX_MEASURE as int) * (
                MAX_MEASURE as int)) by (nonlinear_arith);
                assert((n as int) * ((MAX_MEASURE as int) * (MAX_MEASURE as int)) <= (
                MAX_HISTORY as int) * ((MAX_MEASURE as int) * (MAX_MEASURE as int)))
                    by (nonlinear_arith)
                    requires
                        n <= MAX_HISTORY,
                ;
            }
            sq = sq + dsq;
            j = j + 1;
        }
        proof {
            assert(history@.take(n as int) =~= history@);
        }
        let var = sq / ((n - 1) as u128);
        let std = isqrt_u128(var);
        proof {
            assert(var as int == spec_variance(history@));
            let r = spec_isqrt(var as nat);
            lemma_spec_isqrt(var as nat);
            assert(sq <= (MAX_HISTORY as int) * ((MAX_MEASURE as int) * (MAX_MEASURE as int)))
                by (nonlinear_arith)
                requires
                    sq <= (n as int) * ((MAX_MEASURE as int) * (MAX_MEASURE as int)),
                    2 <= n <= MAX_HISTORY,
                    (MAX_MEASURE as int) * (MAX_MEASURE as int) >= 0,
            ;
            assert(var <= sq);
            assert(std <= u64::MAX) by (nonlinear_arith)
                requires
                    is_isqrt(var as int, std as int),
                    var as int <= (MAX_HISTORY as int) * ((MAX_MEASURE as int) * (
                    MAX_MEASURE as int)),
                    MAX_HISTORY == 32768int,
                    MAX_MEASURE == 0x100000000000000u64,
            ;
        }
        Some(StdDev { mean, std_dev: std as u64, count: n })
    }

    /// Build the baseline after checking the input limits: an over-long or
    /// out-of-range history is a data error, never a panic.
    pub fn try_new(history: &Vec<u64>) -> (r: Result<Option<StdDev>, crate::error::ArithmeticError>)
        ensures
            match r {
                Ok(b) => values_in_range(history@) && history@.len() <= MAX_HISTORY && b
                    == spec_baseline(history@),
                Err(_) => !(values_in_range(history@) && history@.len() <= MAX_HISTORY),
            },
    {
        if history.len() > MAX_HISTORY {
            return Err(crate::error::ArithmeticError::OutOfRange);
        }
        let mut i: usize = 0;
        while i < history.len()
            invariant
                i <= history@.len(),
                forall|k: int| 0 <= k < i ==> #[trigger] history@[k] <= MAX_MEASURE,
            decreases history@.len() - i,
        {
            if history[i] > MAX_MEASURE {
                return Err(crate::error::ArithmeticError::OutOfRange);
            }
            i = i + 1;
        }
        Ok(StdDev::new(history))
    }
}

} // verus!
