//! Line-oriented bench-output adapter.
//!
//! Grammar, mirrored exactly by the spec functions below: an optional
//! leading line ending, a header `running <N> test(s)`, then zero or more
//! lines `test <name> ... ignored` or
//! `test <name> ... bench: <digits> <unit>/iter (+/- <digits>)`, then one
//! line ending; whatever follows (a summary line) is ignored.
//! Digit groups may carry `,` thousands separators, which are stripped.
//! Units are `ns`, `μs`, `ms` and `s`; values are converted uniformly to
//! nanoseconds and then to fixed-point. The spread after `+/-` becomes both
//! the lower and the upper bound of the metric. Parsing is all-or-nothing:
//! any grammar violation fails the whole call, and `ignored` lines are
//! dropped from the output without failing it.

use vstd::prelude::*;

use crate::benchmarks::{spec_upsert, JsonBenchmarksMap, JsonMetrics};
use crate::error::AdapterError;
use crate::metric::JsonMetric;
use crate::text::{
    all_digits, copy_range, digits1, digits_value, eat_lit, find_char, is_digit_char,
    spec_digits1, spec_find_char, spec_lit, spec_skip_digits, str_to_chars,
};
use crate::trusted::chars_to_string;
use crate::SCALE;

verus! {

/// Line-oriented bench-output adapter.
pub struct AdapterRustBench;

/// One parsed line: dropped from the output, or a measured metric.
enum Test {
    Ignored,
    Bench(JsonMetric),
}

/// Space or tab.
pub open spec fn is_space(c: char) -> bool {
    c == ' ' || c == '\t'
}

/// The metric-kind slug every bench line is recorded under.
pub open spec fn latency_slug() -> Seq<char> {
    seq!['l', 'a', 't', 'e', 'n', 'c', 'y']
}

pub open spec fn lit_running() -> Seq<char> {
    seq!['r', 'u', 'n', 'n', 'i', 'n', 'g']
}

pub open spec fn lit_tests() -> Seq<char> {
    seq!['t', 'e', 's', 't', 's']
}

pub open spec fn lit_test() -> Seq<char> {
    seq!['t', 'e', 's', 't']
}

pub open spec fn lit_dots() -> Seq<char> {
    seq!['.', '.', '.']
}

pub open spec fn lit_ignored() -> Seq<char> {
    seq!['i', 'g', 'n', 'o', 'r', 'e', 'd']
}

pub open spec fn lit_bench_colon() -> Seq<char> {
    seq!['b', 'e', 'n', 'c', 'h', ':']
}

pub open spec fn lit_iter() -> Seq<char> {
    seq!['/', 'i', 't', 'e', 'r']
}

pub open spec fn lit_plus_minus() -> Seq<char> {
    seq!['(', '+', '/', '-']
}

/// First position at or after `i` that does not hold a space.
pub open spec fn spec_skip_spaces(s: Seq<char>, i: int) -> int
    decreases s.len() - i,
    when 0 <= i <= s.len()
{
    if i < s.len() && is_space(s[i]) {
        spec_skip_spaces(s, i + 1)
    } else {
        i
    }
}

/// One or more spaces: the position after them, or nothing.
pub open spec fn spec_spaces1(s: Seq<char>, i: int) -> Option<int> {
    if 0 <= i && i < s.len() && is_space(s[i]) {
        Some(spec_skip_spaces(s, i))
    } else {
        None
    }
}

/// A line ending: `\n` or `\r\n`.
pub open spec fn spec_newline(s: Seq<char>, i: int) -> Option<int> {
    if 0 <= i && i < s.len() && s[i] == '\n' {
        Some(i + 1)
    } else if 0 <= i && i + 1 < s.len() && s[i] == '\r' && s[i + 1] == '\n' {
        Some(i + 2)
    } else {
        None
    }
}

/// At least one character up to (not including) the next `c`: the position
/// of that `c`, or nothing where `c` is absent or immediate.
pub open spec fn spec_take_until1(s: Seq<char>, i: int, c: char) -> Option<int> {
    match spec_find_char(s, i, c) {
        Some(j) => if j > i {
            Some(j)
        } else {
            None
        },
        None => None,
    }
}

/// A number: digit groups, a `,` allowed after each group (so thousands
/// separators, and a trailing comma, are consumed). Yields the position
/// after it and the digits with separators stripped.
pub open spec fn spec_number(s: Seq<char>, i: int) -> Option<(int, Seq<char>)>
    decreases s.len() - i,
    when 0 <= i <= s.len()
{
    match spec_digits1(s, i) {
        None => None,
        Some(j) => if i < j && j <= s.len() {
            let group = s.subrange(i, j);
            if j < s.len() && s[j] == ',' {
                match spec_number(s, j + 1) {
                    Some((k, rest)) => Some((k, group + rest)),
                    None => Some((j + 1, group)),
                }
            } else {
                Some((j, group))
            }
        } else {
            None
        },
    }
}

/// Nanoseconds per unit abbreviation; nothing for an unknown unit.
pub open spec fn spec_unit_factor(u: Seq<char>) -> Option<int> {
    if u == seq!['n', 's'] {
        Some(1int)
    } else if u == seq!['μ', 's'] {
        Some(1000int)
    } else if u == seq!['m', 's'] {
        Some(1000000int)
    } else if u == seq!['s'] {
        Some(1000000000int)
    } else {
        None
    }
}

/// The measurement part of a bench line:
/// `bench: <number> <unit>/iter (+/- <number>)`. The value and the spread
/// are converted to fixed-point nanoseconds; a value that does not fit the
/// representation fails the parse.
pub open spec fn spec_bench(s: Seq<char>, i: int) -> Option<(int, JsonMetric)> {
    match spec_lit(s, i, lit_bench_colon()) {
        None => None,
        Some(i1) => match spec_spaces1(s, i1) {
            None => None,
            Some(i2) => match spec_number(s, i2) {
                None => None,
                Some((i3, d1)) => match spec_spaces1(s, i3) {
                    None => None,
                    Some(i4) => match spec_take_until1(s, i4, '/') {
                        None => None,
                        Some(i5) => {
                            let unit = s.subrange(i4, i5);
                            match spec_lit(s, i5, lit_iter()) {
                                None => None,
                                Some(i6) => match spec_spaces1(s, i6) {
                                    None => None,
                                    Some(i7) => match spec_lit(s, i7, lit_plus_minus()) {
                                        None => None,
                                        Some(i8) => match spec_spaces1(s, i8) {
                                            None => None,
                                            Some(i9) => match spec_number(s, i9) {
                                                None => None,
                                                Some((i10, d2)) => match spec_lit(
                                                    s,
                                                    i10,
                                                    seq![')'],
                                                ) {
                                                    None => None,
                                                    Some(i11) => match spec_unit_factor(unit) {
                                                        None => None,
                                                        Some(f) => {
                                                            let v = digits_value(d1) * f * (
                                                            SCALE as int);
                                                            let sp = digits_value(d2) * f * (
                                                            SCALE as int);
                                                            if v <= u64::MAX && sp <= u64::MAX {
                                                                Some(
                                                                    (
                                                                        i11,
                                                                        JsonMetric {
                                                                            value: v as u64,
                                                                            lower_bound: Some(
                                                                                sp as u64,
                                                                            ),
                                                                            upper_bound: Some(
                                                                                sp as u64,
                                                                            ),
                                                                        },
                                                                    ),
                                                                )
                                                            } else {
                                                                None
                                                            }
                                                        },
                                                    },
                                                },
                                            },
                                        },
                                    },
                                },
                            }
                        },
                    },
                },
            },
        },
    }
}

/// One test line: `test <name> ... ignored` (yielding nothing) or
/// `test <name> ... <bench>` (yielding the name and its metric), closed by
/// a line ending. Once `ignored` matches, the line must end there: there is
/// no fallback to the measurement alternative.
pub open spec fn spec_test_line(s: Seq<char>, i: int) -> Option<
    (int, Option<(Seq<char>, JsonMetric)>),
> {
    match spec_lit(s, i, lit_test()) {
        None => None,
        Some(i1) => match spec_spaces1(s, i1) {
            None => None,
            Some(i2) => match spec_take_until1(s, i2, ' ') {
                None => None,
                Some(i3) => {
                    let key = s.subrange(i2, i3);
                    match spec_spaces1(s, i3) {
                        None => None,
                        Some(i4) => match spec_lit(s, i4, lit_dots()) {
                            None => None,
                            Some(i5) => match spec_spaces1(s, i5) {
                                None => None,
                                Some(i6) => match spec_lit(s, i6, lit_ignored()) {
                                    Some(i7) => match spec_newline(s, i7) {
                                        Some(i8) => Some((i8, None)),
                                        None => None,
                                    },
                                    None => match spec_bench(s, i6) {
                                        None => None,
                                        Some((i7, m)) => match spec_newline(s, i7) {
                                            Some(i8) => Some((i8, Some((key, m)))),
                                            None => None,
                                        },
                                    },
                                },
                            },
                        },
                    }
                },
            },
        },
    }
}

/// As many test lines as parse, in order: the position after them and the
/// measured (name, metric) pairs, `ignored` lines contributing nothing.
pub open spec fn spec_lines(s: Seq<char>, i: int) -> (int, Seq<(Seq<char>, JsonMetric)>)
    decreases s.len() - i,
    when 0 <= i <= s.len()
{
    match spec_test_line(s, i) {
        None => (i, Seq::empty()),
        Some((j, item)) => if i < j && j <= s.len() {
            let (end, rest) = spec_lines(s, j);
            match item {
                Some(p) => (end, seq![p] + rest),
                None => (end, rest),
            }
        } else {
            (i, Seq::empty())
        },
    }
}

/// Fold the parsed pairs into the canonical map, in order, each pair
/// binding its benchmark name to a single-entry latency metric map; a later
/// pair with the same name replaces the earlier binding.
pub open spec fn spec_insert_all(
    acc: Seq<(Seq<char>, Seq<(Seq<char>, JsonMetric)>)>,
    pairs: Seq<(Seq<char>, JsonMetric)>,
) -> Seq<(Seq<char>, Seq<(Seq<char>, JsonMetric)>)>
    decreases pairs.len(),
{
    if pairs.len() == 0 {
        acc
    } else {
        spec_insert_all(
            spec_upsert(acc, pairs[0].0, seq![(latency_slug(), pairs[0].1)]),
            pairs.drop_first(),
        )
    }
}

/// The canonical map built from the parsed pairs.
pub open spec fn spec_map_from_pairs(pairs: Seq<(Seq<char>, JsonMetric)>) -> Seq<
    (Seq<char>, Seq<(Seq<char>, JsonMetric)>),
> {
    spec_insert_all(Seq::empty(), pairs)
}

/// The whole format: an optional leading line ending, `running <N>
/// test(s)` and a line ending, the test lines, one closing line ending.
/// Anything after the closing line ending is ignored.
pub open spec fn spec_parse_rust_bench(s: Seq<char>) -> Option<Seq<(Seq<char>, JsonMetric)>> {
    let i1 = match spec_newline(s, 0) {
        Some(j) => j,
        None => 0,
    };
    {
        match spec_lit(s, i1, lit_running()) {
            None => None,
            Some(i2) => match spec_spaces1(s, i2) {
                None => None,
                Some(i3) => match spec_digits1(s, i3) {
                    None => None,
                    Some(i4) => match spec_spaces1(s, i4) {
                        None => None,
                        Some(i5) => {
                            let after = match spec_lit(s, i5, lit_tests()) {
                                Some(j) => Some(j),
                                None => spec_lit(s, i5, lit_test()),
                            };
                            match after {
                                None => None,
                                Some(i6) => match spec_newline(s, i6) {
                                    None => None,
                                    Some(i7) => {
                                        let (i8, items) = spec_lines(s, i7);
                                        match spec_newline(s, i8) {
                                            None => None,
                                            Some(_) => Some(items),
                                        }
                                    },
                                },
                            }
                        },
                    },
                },
            },
        }
    }
}

fn skip_spaces(s: &Vec<char>, i: usize) -> (r: usize)
    requires
        i <= s@.len(),
    ensures
        r == spec_skip_spaces(s@, i as int),
        i <= r <= s@.len(),
        i < s@.len() && is_space(s@[i as int]) ==> r > i,
{
    let mut j = i;
    while j < s.len() && (s[j] == ' ' || s[j] == '\t')
        invariant
            i <= j <= s@.len(),
            spec_skip_spaces(s@, i as int) == spec_skip_spaces(s@, j as int),
        decreases s@.len() - j,
    {
        j = j + 1;
    }
    j
}

fn spaces1(s: &Vec<char>, i: usize) -> (r: Option<usize>)
    requires
        i <= s@.len(),
    ensures
        match r {
            Some(j) => spec_spaces1(s@, i as int) == Some(j as int) && i < j <= s@.len(),
            None => spec_spaces1(s@, i as int) is None,
        },
{
    if i < s.len() && (s[i] == ' ' || s[i] == '\t') {
        let j = skip_spaces(s, i);
        Some(j)
    } else {
        None
    }
}

fn eat_newline(s: &Vec<char>, i: usize) -> (r: Option<usize>)
    requires
        i <= s@.len(),
    ensures
        match r {
            Some(j) => spec_newline(s@, i as int) == Some(j as int) && i < j <= s@.len(),
            None => spec_newline(s@, i as int) is None,
        },
{
    if i < s.len() && s[i] == '\n' {
        Some(i + 1)
    } else if i < s.len() && s[i] == '\r' && i + 1 < s.len() && s[i + 1] == '\n' {
        Some(i + 2)
    } else {
        None
    }
}

fn take_until1(s: &Vec<char>, i: usize, c: char) -> (r: Option<usize>)
    requires
        i <= s@.len(),
    ensures
        match r {
            Some(j) => spec_take_until1(s@, i as int, c) == Some(j as int) && i < j <= s@.len(),
            None => spec_take_until1(s@, i as int, c) is None,
        },
{
    match find_char(s, i, c) {
        Some(j) => if j > i {
            Some(j)
        } else {
            None
        },
        None => None,
    }
}

/// A digit-group number with thousands separators; yields the position
/// after it and the digits with the separators stripped.
pub fn parse_number(s: &Vec<char>, i: usize) -> (r: Option<(usize, Vec<char>)>)
    requires
        i <= s@.len(),
    ensures
        match r {
            Some((j, d)) => spec_number(s@, i as int) == Some((j as int, d@)) && i < j <= s@.len()
                && all_digits(d@),
            None => spec_number(s@, i as int) is None,
        },
    decreases s@.len() - i,
{
    match digits1(s, i) {
        None => None,
        Some(j) => {
            let mut group = copy_range(s, i, j);
            assert(all_digits(group@));
            if j < s.len() && s[j] == ',' {
                match parse_number(s, j + 1) {
                    Some((k, mut rest)) => {
                        let ghost g0 = group@;
                        let ghost r0 = rest@;
                        group.append(&mut rest);
                        assert(group@ =~= g0 + r0);
                        Some((k, group))
                    },
                    None => Some((j + 1, group)),
                }
            } else {
                Some((j, group))
            }
        },
    }
}

/// Value of a stripped digit string; nothing where it does not fit `u64`.
pub fn to_u64(digits: &Vec<char>) -> (r: Option<u64>)
    requires
        all_digits(digits@),
    ensures
        match r {
            Some(v) => v == digits_value(digits@),
            None => digits_value(digits@) > u64::MAX,
        },
{
    let mut acc: u64 = 0;
    let mut i: usize = 0;
    while i < digits.len()
        invariant
            i <= digits@.len(),
            all_digits(digits@),
            acc == digits_value(digits@.take(i as int)),
        decreases digits@.len() - i,
    {
        let c = digits[i];
        assert(is_digit_char(c));
        let d: u64 = (c as u32 - 48) as u64;
        let ghost pre = digits@.take(i as int);
        proof {
            assert(digits@.take(i as int + 1).drop_last() =~= pre);
            assert(digits@.take(i as int + 1).last() == digits@[i as int]);
        }
        let shifted = match acc.checked_mul(10) {
            Some(x) => x,
            None => {
                proof {
                    crate::text::lemma_digits_value_nonneg(digits@.take(i as int + 1));
                    crate::text::lemma_digits_value_prefix(digits@, i as int + 1);
                }
                return None;
            },
        };
        let next = match shifted.checked_add(d) {
            Some(x) => x,
            None => {
                proof {
                    crate::text::lemma_digits_value_prefix(digits@, i as int + 1);
                }
                return None;
            },
        };
        acc = next;
        i = i + 1;
    }
    assert(digits@.take(digits@.len() as int) =~= digits@);
    Some(acc)
}

/// Time units a bench line may carry.
pub enum Units {
    Nano,
    Micro,
    Milli,
    Sec,
}

/// Nanoseconds per unit.
pub open spec fn spec_units_factor(u: Units) -> int {
    match u {
        Units::Nano => 1,
        Units::Micro => 1000,
        Units::Milli => 1000000,
        Units::Sec => 1000000000,
    }
}

impl Units {
    /// The unit named by the abbreviation, if it is a recognized one.
    pub fn from_abbrev(u: &Vec<char>) -> (r: Option<Units>)
        ensures
            match r {
                Some(un) => spec_unit_factor(u@) == Some(spec_units_factor(un)),
                None => spec_unit_factor(u@) is None,
            },
    {
        if u.len() == 1 && u[0] == 's' {
            assert(u@ =~= seq!['s']);
            Some(Units::Sec)
        } else if u.len() == 2 && u[0] == 'n' && u[1] == 's' {
            assert(u@ =~= seq!['n', 's']);
            Some(Units::Nano)
        } else if u.len() == 2 && u[0] == 'μ' && u[1] == 's' {
            assert(u@ =~= seq!['μ', 's']);
            Some(Units::Micro)
        } else if u.len() == 2 && u[0] == 'm' && u[1] == 's' {
            assert(u@ =~= seq!['m', 's']);
            Some(Units::Milli)
        } else {
            proof {
                if u@ == seq!['n', 's'] || u@ == seq!['μ', 's'] || u@ == seq!['m', 's'] || u@
                    == seq!['s'] {
                    assert(false);
                }
            }
            None
        }
    }
}

/// Nanosecond count of `time` in the given unit.
pub fn to_duration(time: u64, units: &Units) -> (r: u128)
    ensures
        r == time as int * spec_units_factor(*units),
{
    match units {
        Units::Nano => time as u128,
        Units::Micro => (time as u128) * 1000,
        Units::Milli => (time as u128) * 1000000,
        Units::Sec => (time as u128) * 1000000000,
    }
}

fn eat_bench(s: &Vec<char>, i: usize) -> (r: Option<(usize, JsonMetric)>)
    requires
        i <= s@.len(),
    ensures
        match r {
            Some((j, m)) => spec_bench(s@, i as int) == Some((j as int, m)) && i < j <= s@.len(),
            None => spec_bench(s@, i as int) is None,
        },
{
    let lit1 = vec!['b', 'e', 'n', 'c', 'h', ':'];
    assert(lit1@ =~= lit_bench_colon());
    let i1 = match eat_lit(s, i, &lit1) {
        Some(x) => x,
        None => {
            return None;
        },
    };
    let i2 = match spaces1(s, i1) {
        Some(x) => x,
        None => {
            return None;
        },
    };
    let (i3, d1) = match parse_number(s, i2) {
        Some(x) => x,
        None => {
            return None;
        },
    };
    let i4 = match spaces1(s, i3) {
        Some(x) => x,
        None => {
            return None;
        },
    };
    let i5 = match take_until1(s, i4, '/') {
        Some(x) => x,
        None => {
            return None;
        },
    };
    let unit = copy_range(s, i4, i5);
    let lit2 = vec!['/', 'i', 't', 'e', 'r'];
    assert(lit2@ =~= lit_iter());
    let i6 = match eat_lit(s, i5, &lit2) {
        Some(x) => x,
        None => {
            return None;
        },
    };
    let i7 = match spaces1(s, i6) {
        Some(x) => x,
        None => {
            return None;
        },
    };
    let lit3 = vec!['(', '+', '/', '-'];
    assert(lit3@ =~= lit_plus_minus());
    let i8 = match eat_lit(s, i7, &lit3) {
        Some(x) => x,
        None => {
            return None;
        },
    };
    let i9 = match spaces1(s, i8) {
        Some(x) => x,
        None => {
            return None;
        },
    };
    let (i10, d2) = match parse_number(s, i9) {
        Some(x) => x,
        None => {
            return None;
        },
    };
    let lit4 = vec![')'];
    assert(lit4@ =~= seq![')']);
    let i11 = match eat_lit(s, i10, &lit4) {
        Some(x) => x,
        None => {
            return None;
        },
    };
    let units = match Units::from_abbrev(&unit) {
        Some(u) => u,
        None => {
            return None;
        },
    };
    let ghost f = spec_units_factor(units);
    let ghost sc = SCALE as int;
    proof {
        assert(1 <= f <= 1000000000);
    }
    let v1 = match to_u64(&d1) {
        Some(v) => v,
        None => {
            proof {
                let dv = digits_value(d1@);
                assert(dv * f * sc >= dv) by (nonlinear_arith)
                    requires
                        dv > u64::MAX,
                        f >= 1,
                        sc >= 1,
                ;
            }
            return None;
        },
    };
    let v2 = match to_u64(&d2) {
        Some(v) => v,
        None => {
            proof {
                let dv = digits_value(d2@);
                assert(dv * f * sc >= dv) by (nonlinear_arith)
                    requires
                        dv > u64::MAX,
                        f >= 1,
                        sc >= 1,
                ;
            }
            return None;
        },
    };
    let ns1 = to_duration(v1, &units);
    let ns2 = to_duration(v2, &units);
    proof {
        assert(ns1 <= (u64::MAX as int) * 1000000000) by (nonlinear_arith)
            requires
                ns1 == v1 as int * f,
                v1 <= u64::MAX,
                0 <= v1,
                1 <= f <= 1000000000,
        ;
        assert(ns2 <= (u64::MAX as int) * 1000000000) by (nonlinear_arith)
            requires
                ns2 == v2 as int * f,
                v2 <= u64::MAX,
                0 <= v2,
                1 <= f <= 1000000000,
        ;
    }
    let sv1 = ns1 * (SCALE as u128);
    let sv2 = ns2 * (SCALE as u128);
    proof {
        assert(sv1 as int == digits_value(d1@) * f * sc) by (nonlinear_arith)
            requires
                sv1 == ns1 * sc,
                ns1 == v1 as int * f,
                v1 == digits_value(d1@),
        ;
        assert(sv2 as int == digits_value(d2@) * f * sc) by (nonlinear_arith)
            requires
                sv2 == ns2 * sc,
                ns2 == v2 as int * f,
                v2 == digits_value(d2@),
        ;
    }
    if sv1 <= u64::MAX as u128 && sv2 <= u64::MAX as u128 {
        Some(
            (
                i11,
                JsonMetric {
                    value: sv1 as u64,
                    lower_bound: Some(sv2 as u64),
                    upper_bound: Some(sv2 as u64),
                },
            ),
        )
    } else {
        None
    }
}

/// An `ignored` line yields nothing; a measured line yields its name and
/// metric.
fn to_latency(key: Vec<char>, test: Test) -> (r: Option<(String, JsonMetric)>)
    ensures
        match test {
            Test::Ignored => r is None,
            Test::Bench(m) => match r {
                Some((name, mm)) => name@ == key@ && mm == m,
                None => false,
            },
        },
{
    match test {
        Test::Ignored => None,
        Test::Bench(metric) => Some((chars_to_string(&key), metric)),
    }
}

fn eat_test_line(s: &Vec<char>, i: usize) -> (r: Option<(usize, Option<(String, JsonMetric)>)>)
    requires
        i <= s@.len(),
    ensures
        match r {
            Some((j, item)) => i < j <= s@.len() && (match item {
                Some((name, m)) => spec_test_line(s@, i as int) == Some(
                    (j as int, Some((name@, m))),
                ),
                None => spec_test_line(s@, i as int) == Some(
                    (j as int, None::<(Seq<char>, JsonMetric)>),
                ),
            }),
            None => spec_test_line(s@, i as int) is None,
        },
{
    let lit_t = vec!['t', 'e', 's', 't'];
    assert(lit_t@ =~= lit_test());
    let i1 = match eat_lit(s, i, &lit_t) {
        Some(x) => x,
        None => {
            return None;
        },
    };
    let i2 = match spaces1(s, i1) {
        Some(x) => x,
        None => {
            return None;
        },
    };
    let i3 = match take_until1(s, i2, ' ') {
        Some(x) => x,
        None => {
            return None;
        },
    };
    let key = copy_range(s, i2, i3);
    let i4 = match spaces1(s, i3) {
        Some(x) => x,
        None => {
            return None;
        },
    };
    let lit_d = vec!['.', '.', '.'];
    assert(lit_d@ =~= lit_dots());
    let i5 = match eat_lit(s, i4, &lit_d) {
        Some(x) => x,
        None => {
            return None;
        },
    };
    let i6 = match spaces1(s, i5) {
        Some(x) => x,
        None => {
            return None;
        },
    };
    let lit_i = vec!['i', 'g', 'n', 'o', 'r', 'e', 'd'];
    assert(lit_i@ =~= lit_ignored());
    let (i7, test) = match eat_lit(s, i6, &lit_i) {
        Some(x) => (x, Test::Ignored),
        None => match eat_bench(s, i6) {
            Some((x, m)) => (x, Test::Bench(m)),
            None => {
                return None;
            },
        },
    };
    let i8 = match eat_newline(s, i7) {
        Some(x) => x,
        None => {
            return None;
        },
    };
    Some((i8, to_latency(key, test)))
}

/// All test lines from `start` on, folded into the canonical map.
fn parse_lines(s: &Vec<char>, start: usize) -> (r: (usize, JsonBenchmarksMap))
    requires
        start <= s@.len(),
    ensures
        r.0 == spec_lines(s@, start as int).0,
        r.1@ == spec_map_from_pairs(spec_lines(s@, start as int).1),
        start <= r.0 <= s@.len(),
{
    let mut pos = start;
    let mut map = JsonBenchmarksMap::new();
    loop
        invariant_except_break
            start <= pos <= s@.len(),
            spec_lines(s@, start as int).0 == spec_lines(s@, pos as int).0,
            spec_insert_all(Seq::empty(), spec_lines(s@, start as int).1) == spec_insert_all(
                map@,
                spec_lines(s@, pos as int).1,
            ),
        ensures
            spec_test_line(s@, pos as int) is None,
            start <= pos <= s@.len(),
            spec_lines(s@, start as int).0 == spec_lines(s@, pos as int).0,
            spec_insert_all(Seq::empty(), spec_lines(s@, start as int).1) == spec_insert_all(
                map@,
                spec_lines(s@, pos as int).1,
            ),
        decreases s@.len() - pos,
    {
        let ghost before = map@;
        match eat_test_line(s, pos) {
            None => {
                break ;
            },
            Some((j, item)) => {
                proof {
                    assert(spec_lines(s@, pos as int).0 == spec_lines(s@, j as int).0);
                }
                match item {
                    Some((name, m)) => {
                        let ghost nview = name@;
                        let mut metrics = JsonMetrics::new();
                        metrics.insert("latency".to_owned(), m);
                        proof {
                            reveal_strlit("latency");
                            assert("latency"@ =~= latency_slug());
                            assert(metrics@ =~= seq![(latency_slug(), m)]);
                        }
                        map.insert(name, metrics);
                        proof {
                            let pairs = spec_lines(s@, pos as int).1;
                            let rest = spec_lines(s@, j as int).1;
                            assert(pairs == seq![(nview, m)] + rest);
                            assert(pairs[0] == (nview, m));
                            assert(pairs.drop_first() =~= rest);
                            assert(spec_insert_all(before, pairs) == spec_insert_all(
                                spec_upsert(before, nview, seq![(latency_slug(), m)]),
                                rest,
                            ));
                        }
                    },
                    None => {
                        proof {
                            assert(spec_lines(s@, pos as int).1 == spec_lines(s@, j as int).1);
                        }
                    },
                }
                pos = j;
            },
        }
    }
    proof {
        assert(spec_lines(s@, pos as int) == (pos as int, Seq::<(Seq<char>, JsonMetric)>::empty()));
        assert(spec_insert_all(map@, Seq::<(Seq<char>, JsonMetric)>::empty()) == map@);
    }
    (pos, map)
}

/// Parse whole bench-tool output into the canonical map: `Ok` exactly when
/// the input matches the grammar, and then the map holds exactly the
/// measured benchmarks, each under the latency metric kind.
pub fn parse_rust_bench(input: &str) -> (r: Result<JsonBenchmarksMap, AdapterError>)
    ensures
        match r {
            Ok(map) => match spec_parse_rust_bench(input@) {
                Some(pairs) => map@ == spec_map_from_pairs(pairs),
                None => false,
            },
            Err(_) => spec_parse_rust_bench(input@) is None,
        },
{
    let s = str_to_chars(input);
    let i1 = match eat_newline(&s, 0) {
        Some(x) => x,
        None => 0,
    };
    let lit_r = vec!['r', 'u', 'n', 'n', 'i', 'n', 'g'];
    assert(lit_r@ =~= lit_running());
    let i2 = match eat_lit(&s, i1, &lit_r) {
        Some(x) => x,
        None => {
            return Err(AdapterError::Parse { pos: i1 });
        },
    };
    let i3 = match spaces1(&s, i2) {
        Some(x) => x,
        None => {
            return Err(AdapterError::Parse { pos: i2 });
        },
    };
    let i4 = match digits1(&s, i3) {
        Some(x) => x,
        None => {
            return Err(AdapterError::Parse { pos: i3 });
        },
    };
    let i5 = match spaces1(&s, i4) {
        Some(x) => x,
        None => {
            return Err(AdapterError::Parse { pos: i4 });
        },
    };
    let lit_ts = vec!['t', 'e', 's', 't', 's'];
    assert(lit_ts@ =~= lit_tests());
    let lit_t = vec!['t', 'e', 's', 't'];
    assert(lit_t@ =~= lit_test());
    let i6 = match eat_lit(&s, i5, &lit_ts) {
        Some(x) => x,
        None => match eat_lit(&s, i5, &lit_t) {
            Some(x) => x,
            None => {
                return Err(AdapterError::Parse { pos: i5 });
            },
        },
    };
    let i7 = match eat_newline(&s, i6) {
        Some(x) => x,
        None => {
            return Err(AdapterError::Parse { pos: i6 });
        },
    };
    let (i8, map) = parse_lines(&s, i7);
    match eat_newline(&s, i8) {
        Some(_) => Ok(map),
        None => Err(AdapterError::Parse { pos: i8 }),
    }
}

impl AdapterRustBench {
    /// Convert raw bench-tool output; `Ok` exactly when the whole input
    /// matches the grammar.
    pub fn convert(input: &str) -> (r: Result<JsonBenchmarksMap, AdapterError>)
        ensures
            match r {
                Ok(map) => match spec_parse_rust_bench(input@) {
                    Some(pairs) => map@ == spec_map_from_pairs(pairs),
                    None => false,
                },
                Err(_) => spec_parse_rust_bench(input@) is None,
            },
    {
        parse_rust_bench(input)
    }
}

} // verus!
