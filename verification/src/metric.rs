//! Canonical measurement values and their arithmetic.
//!
//! A `JsonMetric` is a fixed-point measurement: `value` counts units of
//! `1/SCALE`, and the optional `lower_bound` / `upper_bound` carry a
//! symmetric spread around the value (not an absolute range). Addition is
//! an additive approximation, not true uncertainty propagation: where only
//! one operand carries a bound, the other operand's value stands in for the
//! missing bound. Sums saturate at the largest representable value, the
//! fixed-point analogue of infinity.

use vstd::prelude::*;

verus! {

/// Canonical metric triple: a fixed-point value and an optional symmetric
/// spread, carried as a lower and an upper bound.
#[derive(Debug, Clone, Copy)]
pub struct JsonMetric {
    pub value: u64,
    pub lower_bound: Option<u64>,
    pub upper_bound: Option<u64>,
}

/// Saturating fixed-point addition.
pub open spec fn sat_add(a: u64, b: u64) -> u64 {
    if a + b > u64::MAX {
        u64::MAX
    } else {
        (a + b) as u64
    }
}

/// Bound addition: both bounds present sums them; one present adds the other
/// operand's value in its place; neither present yields no bound.
pub open spec fn spec_option_add(
    left_bound: Option<u64>,
    left_value: u64,
    right_bound: Option<u64>,
    right_value: u64,
) -> Option<u64> {
    match (left_bound, right_bound) {
        (Some(l), Some(r)) => Some(sat_add(l, r)),
        (Some(l), None) => Some(sat_add(l, right_value)),
        (None, Some(r)) => Some(sat_add(left_value, r)),
        (None, None) => None,
    }
}

impl JsonMetric {
    /// Component-wise sum per the bound policy above.
    pub open spec fn spec_add(self, other: Self) -> Self {
        JsonMetric {
            value: sat_add(self.value, other.value),
            lower_bound: spec_option_add(
                self.lower_bound,
                self.value,
                other.lower_bound,
                other.value,
            ),
            upper_bound: spec_option_add(
                self.upper_bound,
                self.value,
                other.upper_bound,
                other.value,
            ),
        }
    }

    /// Component-wise truncating division by a count.
    pub open spec fn spec_div(self, rhs: usize) -> Self
        recommends
            rhs > 0,
    {
        JsonMetric {
            value: (self.value as int / rhs as int) as u64,
            lower_bound: match self.lower_bound {
                Some(b) => Some((b as int / rhs as int) as u64),
                None => None,
            },
            upper_bound: match self.upper_bound {
                Some(b) => Some((b as int / rhs as int) as u64),
                None => None,
            },
        }
    }
}

/// Equality of optional bounds: both absent, or both present and equal.
pub fn option_eq(left: Option<u64>, right: Option<u64>) -> (r: bool)
    ensures
        r == (left == right),
{
    if let Some(left) = left {
        if let Some(right) = right {
            left == right
        } else {
            false
        }
    } else {
        right.is_none()
    }
}

/// Bound addition, saturating; see `spec_option_add` for the policy.
pub fn option_add(
    left_bound: Option<u64>,
    left_value: u64,
    right_bound: Option<u64>,
    right_value: u64,
) -> (r: Option<u64>)
    ensures
        r == spec_option_add(left_bound, left_value, right_bound, right_value),
{
    if let Some(left_bound) = left_bound {
        if let Some(right_bound) = right_bound {
            Some(left_bound.saturating_add(right_bound))
        } else {
            Some(left_bound.saturating_add(right_value))
        }
    } else {
        if let Some(right_bound) = right_bound {
            Some(left_value.saturating_add(right_bound))
        } else {
            None
        }
    }
}

impl PartialEq for JsonMetric {
    fn eq(&self, other: &Self) -> (r: bool) {
        self.value == other.value && option_eq(self.lower_bound, other.lower_bound)
            && option_eq(self.upper_bound, other.upper_bound)
    }
}

impl Eq for JsonMetric {

}

impl vstd::std_specs::cmp::PartialEqSpecImpl for JsonMetric {
    open spec fn obeys_eq_spec() -> bool {
        true
    }

    open spec fn eq_spec(&self, other: &Self) -> bool {
        self.value == other.value && self.lower_bound == other.lower_bound
            && self.upper_bound == other.upper_bound
    }
}

/// Missing bound sorts strictly below a present bound.
pub open spec fn opt_lt(a: Option<u64>, b: Option<u64>) -> bool {
    match (a, b) {
        (None, Some(_)) => true,
        (Some(x), Some(y)) => x < y,
        (None, None) => false,
        (Some(_), None) => false,
    }
}

/// Strict total order: by value, then upper bound, then lower bound,
/// a missing bound sorting below a present one.
pub open spec fn metric_lt(a: JsonMetric, b: JsonMetric) -> bool {
    if a.value != b.value {
        a.value < b.value
    } else if a.upper_bound != b.upper_bound {
        opt_lt(a.upper_bound, b.upper_bound)
    } else {
        opt_lt(a.lower_bound, b.lower_bound)
    }
}

/// Non-strict total order over metrics.
pub open spec fn metric_le(a: JsonMetric, b: JsonMetric) -> bool {
    metric_lt(a, b) || a == b
}

fn opt_lt_exec(a: Option<u64>, b: Option<u64>) -> (r: bool)
    ensures
        r == opt_lt(a, b),
{
    match (a, b) {
        (None, Some(_)) => true,
        (Some(x), Some(y)) => x < y,
        _ => false,
    }
}

impl JsonMetric {
    /// Total-order comparison: by value, then upper bound, then lower bound.
    pub fn cmp(&self, other: &Self) -> (r: core::cmp::Ordering)
        ensures
            r is Less <==> metric_lt(*self, *other),
            r is Greater <==> metric_lt(*other, *self),
            r is Equal <==> *self == *other,
    {
        if self.value != other.value {
            if self.value < other.value {
                core::cmp::Ordering::Less
            } else {
                core::cmp::Ordering::Greater
            }
        } else if !option_eq(self.upper_bound, other.upper_bound) {
            if opt_lt_exec(self.upper_bound, other.upper_bound) {
                core::cmp::Ordering::Less
            } else {
                core::cmp::Ordering::Greater
            }
        } else if !option_eq(self.lower_bound, other.lower_bound) {
            if opt_lt_exec(self.lower_bound, other.lower_bound) {
                core::cmp::Ordering::Less
            } else {
                core::cmp::Ordering::Greater
            }
        } else {
            core::cmp::Ordering::Equal
        }
    }

    /// Component-wise sum; see the module doc for the bound policy.
    pub fn add(self, other: Self) -> (r: Self)
        ensures
            r == self.spec_add(other),
    {
        let value = self.value.saturating_add(other.value);
        let lower_bound = option_add(self.lower_bound, self.value, other.lower_bound, other.value);
        let upper_bound = option_add(self.upper_bound, self.value, other.upper_bound, other.value);
        JsonMetric { value, lower_bound, upper_bound }
    }

    /// Component-wise truncating division by a count.
    pub fn div(self, rhs: usize) -> (r: Self)
        requires
            rhs > 0,
        ensures
            r == self.spec_div(rhs),
    {
        let d = rhs as u64;
        JsonMetric {
            value: self.value / d,
            lower_bound: match self.lower_bound {
                Some(b) => Some(b / d),
                None => None,
            },
            upper_bound: match self.upper_bound {
                Some(b) => Some(b / d),
                None => None,
            },
        }
    }
}

impl Default for JsonMetric {
    /// The zero metric: value 0 and no bounds, the neutral start of a sum.
    fn default() -> (r: Self)
        ensures
            r == (JsonMetric { value: 0u64, lower_bound: None::<u64>, upper_bound: None::<u64> }),
    {
        JsonMetric { value: 0, lower_bound: None, upper_bound: None }
    }
}

/// Fold of `spec_add` over a sequence, starting from the zero metric.
pub open spec fn spec_sum(s: Seq<JsonMetric>) -> JsonMetric
    decreases s.len(),
{
    if s.len() == 0 {
        JsonMetric { value: 0u64, lower_bound: None, upper_bound: None }
    } else {
        spec_sum(s.drop_last()).spec_add(s.last())
    }
}

/// Mean of a sequence: component-wise sum divided by the length;
/// no value for the empty sequence.
pub open spec fn spec_mean(s: Seq<JsonMetric>) -> Option<JsonMetric> {
    if s.len() == 0 {
        None
    } else {
        Some(spec_sum(s).spec_div(s.len() as usize))
    }
}

/// Median under the total order: the middle element for odd length, the
/// mean of the two central elements for even length; no value when empty.
pub open spec fn spec_median(s: Seq<JsonMetric>) -> Option<JsonMetric> {
    if s.len() == 0 {
        None
    } else if s.len() % 2 == 1 {
        Some(s[s.len() as int / 2])
    } else {
        spec_mean(seq![s[s.len() as int / 2 - 1], s[s.len() as int / 2]])
    }
}

/// The sequence is sorted under the metric total order.
pub open spec fn metrics_sorted(s: Seq<JsonMetric>) -> bool {
    forall|i: int, j: int| 0 <= i < j < s.len() ==> metric_le(s[i], s[j])
}

/// Component-wise sum of all metrics in the vector.
pub fn sum(metrics: &Vec<JsonMetric>) -> (r: JsonMetric)
    ensures
        r == spec_sum(metrics@),
{
    let mut acc = JsonMetric::default();
    let mut i: usize = 0;
    while i < metrics.len()
        invariant
            i <= metrics@.len(),
            acc == spec_sum(metrics@.take(i as int)),
        decreases metrics@.len() - i,
    {
        assert(metrics@.take(i as int + 1).drop_last() =~= metrics@.take(i as int));
        acc = acc.add(metrics[i]);
        i = i + 1;
    }
    assert(metrics@.take(metrics@.len() as int) =~= metrics@);
    acc
}

/// Mean of the metrics in the vector; `None` when it is empty.
pub fn mean(metrics: &Vec<JsonMetric>) -> (r: Option<JsonMetric>)
    ensures
        r == spec_mean(metrics@),
{
    if metrics.len() == 0 {
        None
    } else {
        let total = sum(metrics);
        Some(total.div(metrics.len()))
    }
}

/// Median of a sequence ordered under the metric total order.
pub fn median(sorted: &Vec<JsonMetric>) -> (r: Option<JsonMetric>)
    requires
        metrics_sorted(sorted@),
    ensures
        r == spec_median(sorted@),
{
    let n = sorted.len();
    if n == 0 {
        None
    } else if n % 2 == 1 {
        Some(sorted[n / 2])
    } else {
        let a = sorted[n / 2 - 1];
        let b = sorted[n / 2];
        let two = vec![a, b];
        proof {
            assert(two@ =~= seq![sorted@[n as int / 2 - 1], sorted@[n as int / 2]]);
        }
        mean(&two)
    }
}

/// Metric addition is commutative.
pub proof fn lemma_add_commutative(a: JsonMetric, b: JsonMetric)
    ensures
        a.spec_add(b) == b.spec_add(a),
{
}

/// The mean of a single metric is that metric, unchanged.
pub proof fn lemma_mean_singleton(m: JsonMetric)
    ensures
        spec_mean(seq![m]) == Some(m),
{
    assert(seq![m].drop_last() =~= Seq::<JsonMetric>::empty());
    assert(spec_sum(seq![m]) == spec_sum(Seq::<JsonMetric>::empty()).spec_add(m));
    let s = spec_sum(seq![m]);
    assert(s.value == m.value);
    let d = s.spec_div(1);
    assert(d.value == m.value);
    match m.lower_bound {
        Some(b) => {
            assert(s.lower_bound == Some(b));
            assert(d.lower_bound == Some(b));
        },
        None => {
            assert(d.lower_bound is None);
        },
    }
    match m.upper_bound {
        Some(b) => {
            assert(s.upper_bound == Some(b));
            assert(d.upper_bound == Some(b));
        },
        None => {
            assert(d.upper_bound is None);
        },
    }
}

/// The metric order is total: any two metrics are ordered, and only equal
/// metrics are ordered both ways.
pub proof fn lemma_metric_order_total(a: JsonMetric, b: JsonMetric)
    ensures
        metric_le(a, b) || metric_le(b, a),
        metric_le(a, b) && metric_le(b, a) ==> a == b,
{
}

/// The metric order is transitive.
pub proof fn lemma_metric_order_transitive(a: JsonMetric, b: JsonMetric, c: JsonMetric)
    requires
        metric_le(a, b),
        metric_le(b, c),
    ensures
        metric_le(a, c),
{
}

/// The median of an even-length ordered sequence is the mean of its two
/// central elements under the metric total order.
pub proof fn lemma_median_even(s: Seq<JsonMetric>)
    requires
        metrics_sorted(s),
        s.len() > 0,
        s.len() % 2 == 0,
    ensures
        spec_median(s) == spec_mean(seq![s[s.len() as int / 2 - 1], s[s.len() as int / 2]]),
{
}

} // verus!
