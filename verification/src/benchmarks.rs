//! The canonical benchmark map: benchmark name to metric-kind to metric.
//!
//! Both levels are association lists with unique keys, read as maps: the
//! view is the sequence of key/value pairs, `spec_lookup` gives the map
//! reading, and `insert` replaces an existing binding, so insertion order
//! never yields two bindings for one key.

use vstd::prelude::*;

use crate::metric::JsonMetric;

verus! {

/// Metric-kind slug for latency measurements.
pub const LATENCY_SLUG: &'static str = "latency";

/// First binding of `key` in an association list, if any.
pub open spec fn spec_lookup<T>(s: Seq<(Seq<char>, T)>, key: Seq<char>) -> Option<T>
    decreases s.len(),
{
    if s.len() == 0 {
        None
    } else if s[0].0 == key {
        Some(s[0].1)
    } else {
        spec_lookup(s.drop_first(), key)
    }
}

/// Index of the first binding of `key`, if any.
pub open spec fn spec_key_index<T>(s: Seq<(Seq<char>, T)>, key: Seq<char>) -> Option<int>
    decreases s.len(),
{
    if s.len() == 0 {
        None
    } else if s[0].0 == key {
        Some(0)
    } else {
        match spec_key_index(s.drop_first(), key) {
            Some(i) => Some(i + 1),
            None => None,
        }
    }
}

/// Insert-or-replace: an existing binding of `key` is removed, and the new
/// binding goes to the end.
pub open spec fn spec_upsert<T>(s: Seq<(Seq<char>, T)>, key: Seq<char>, v: T) -> Seq<
    (Seq<char>, T),
> {
    match spec_key_index(s, key) {
        Some(i) => s.remove(i).push((key, v)),
        None => s.push((key, v)),
    }
}

/// No two bindings share a key.
pub open spec fn keys_unique<T>(s: Seq<(Seq<char>, T)>) -> bool {
    forall|i: int, j: int| 0 <= i < j < s.len() ==> s[i].0 != s[j].0
}

/// A key bound nowhere is not found.
pub proof fn lemma_key_absent<T>(s: Seq<(Seq<char>, T)>, key: Seq<char>)
    requires
        forall|j: int| 0 <= j < s.len() ==> s[j].0 != key,
    ensures
        spec_lookup(s, key) is None,
        spec_key_index(s, key) is None,
    decreases s.len(),
{
    if s.len() > 0 {
        assert(s[0].0 != key);
        lemma_key_absent(s.drop_first(), key);
    }
}

/// The first position holding `key` is what `spec_key_index` finds, and
/// `spec_lookup` yields the value stored there.
pub proof fn lemma_key_found<T>(s: Seq<(Seq<char>, T)>, key: Seq<char>, i: int)
    requires
        0 <= i < s.len(),
        s[i].0 == key,
        forall|j: int| 0 <= j < i ==> s[j].0 != key,
    ensures
        spec_key_index(s, key) == Some(i),
        spec_lookup(s, key) == Some(s[i].1),
    decreases i,
{
    if i == 0 {
    } else {
        assert(s[0].0 != key);
        lemma_key_found(s.drop_first(), key, i - 1);
    }
}

/// Mapping from metric-kind slug to metric for one benchmark.
#[derive(Debug, Clone)]
pub struct JsonMetrics {
    pub inner: Vec<(String, JsonMetric)>,
}

impl View for JsonMetrics {
    type V = Seq<(Seq<char>, JsonMetric)>;

    open spec fn view(&self) -> Self::V {
        Seq::new(self.inner@.len(), |i: int| (self.inner@[i].0@, self.inner@[i].1))
    }
}

/// Mapping from benchmark name to its metrics, one per report ingestion.
#[derive(Debug, Clone)]
pub struct JsonBenchmarksMap {
    pub inner: Vec<(String, JsonMetrics)>,
}

impl View for JsonBenchmarksMap {
    type V = Seq<(Seq<char>, Seq<(Seq<char>, JsonMetric)>)>;

    open spec fn view(&self) -> Self::V {
        Seq::new(self.inner@.len(), |i: int| (self.inner@[i].0@, self.inner@[i].1@))
    }
}

impl JsonMetrics {
    /// The empty metric map.
    pub fn new() -> (r: Self)
        ensures
            r@ =~= Seq::<(Seq<char>, JsonMetric)>::empty(),
    {
        JsonMetrics { inner: Vec::new() }
    }

    /// The metric stored under `kind`, if any.
    pub fn get(&self, kind: &str) -> (r: Option<&JsonMetric>)
        ensures
            match r {
                Some(m) => spec_lookup(self@, kind@) == Some(*m),
                None => spec_lookup(self@, kind@) is None,
            },
    {
        let key = kind.to_owned();
        let mut i: usize = 0;
        while i < self.inner.len()
            invariant
                i <= self@.len(),
                key@ == kind@,
                forall|j: int| 0 <= j < i ==> self@[j].0 != kind@,
            decreases self@.len() - i,
        {
            if self.inner[i].0 == key {
                proof {
                    lemma_key_found(self@, kind@, i as int);
                }
                return Some(&self.inner[i].1);
            }
            i = i + 1;
        }
        proof {
            lemma_key_absent(self@, kind@);
        }
        None
    }

    /// Bind `kind` to `m`, replacing any existing binding.
    #[verifier::loop_isolation(false)]
    pub fn insert(&mut self, kind: String, m: JsonMetric)
        ensures
            final(self)@ == spec_upsert(old(self)@, kind@, m),
    {
        let ghost prior = old(self)@;
        let mut i: usize = 0;
        while i < self.inner.len()
            invariant
                i <= self@.len(),
                self@ == prior,
                forall|j: int| 0 <= j < i ==> prior[j].0 != kind@,
            decreases self@.len() - i,
        {
            if self.inner[i].0 == kind {
                proof {
                    lemma_key_found(prior, kind@, i as int);
                }
                self.inner.remove(i);
                self.inner.push((kind, m));
                assert(self@ =~= spec_upsert(prior, kind@, m));
                return ;
            }
            i = i + 1;
        }
        proof {
            lemma_key_absent(prior, kind@);
        }
        self.inner.push((kind, m));
        assert(self@ =~= spec_upsert(prior, kind@, m));
    }
}

impl JsonBenchmarksMap {
    /// The empty benchmark map.
    pub fn new() -> (r: Self)
        ensures
            r@ =~= Seq::<(Seq<char>, Seq<(Seq<char>, JsonMetric)>)>::empty(),
    {
        JsonBenchmarksMap { inner: Vec::new() }
    }

    /// The metrics recorded for `name`, if any.
    pub fn get(&self, name: &str) -> (r: Option<&JsonMetrics>)
        ensures
            match r {
                Some(m) => spec_lookup(self@, name@) == Some(m@),
                None => spec_lookup(self@, name@) is None,
            },
    {
        let key = name.to_owned();
        let mut i: usize = 0;
        while i < self.inner.len()
            invariant
                i <= self@.len(),
                key@ == name@,
                forall|j: int| 0 <= j < i ==> self@[j].0 != name@,
            decreases self@.len() - i,
        {
            if self.inner[i].0 == key {
                proof {
                    lemma_key_found(self@, name@, i as int);
                }
                return Some(&self.inner[i].1);
            }
            i = i + 1;
        }
        proof {
            lemma_key_absent(self@, name@);
        }
        None
    }

    /// Number of benchmarks in the map.
    pub fn len(&self) -> (r: usize)
        ensures
            r == self@.len(),
    {
        self.inner.len()
    }

    /// Bind `name` to `metrics`, replacing any existing binding.
    #[verifier::loop_isolation(false)]
    pub fn insert(&mut self, name: String, metrics: JsonMetrics)
        ensures
            final(self)@ == spec_upsert(old(self)@, name@, metrics@),
    {
        let ghost prior = old(self)@;
        let ghost mview = metrics@;
        let mut i: usize = 0;
        while i < self.inner.len()
            invariant
                i <= self@.len(),
                self@ == prior,
                mview == metrics@,
                forall|j: int| 0 <= j < i ==> prior[j].0 != name@,
            decreases self@.len() - i,
        {
            if self.inner[i].0 == name {
                proof {
                    lemma_key_found(prior, name@, i as int);
                }
                self.inner.remove(i);
                self.inner.push((name, metrics));
                assert(self@ =~= spec_upsert(prior, name@, mview));
                return ;
            }
            i = i + 1;
        }
        proof {
            lemma_key_absent(prior, name@);
        }
        self.inner.push((name, metrics));
        assert(self@ =~= spec_upsert(prior, name@, mview));
    }
}

} // verus!
