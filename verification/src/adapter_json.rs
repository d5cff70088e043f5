//! JSON adapter: the passthrough path for producers that already emit the
//! canonical shape.
//!
//! The canonical shape is a JSON object: benchmark name to metric-kind to
//! metric, each metric `{"value":V,"lower_bound":B,"upper_bound":B}` with
//! unsigned fixed-point numbers and `null` for a missing bound, names
//! without quote or backslash characters (the form carries no escapes),
//! and no duplicate keys. The parser validates raw text directly against
//! this shape, whole-input and all-or-nothing, accepting insignificant
//! whitespace between tokens; the serializer renders the compact form and
//! asks for representable names. The two are mutually inverse (see
//! `lemma_json_round_trip`).

use vstd::prelude::*;

use crate::benchmarks::{keys_unique, JsonBenchmarksMap, JsonMetrics};
use crate::error::AdapterError;
use crate::metric::JsonMetric;
use crate::text::{
    copy_range, dec_digits, digits1, digits_value, eat_lit, find_char, is_digit_char, spec_digits1,
    spec_find_char, spec_lit, spec_skip_digits, str_to_chars, u64_to_dec_chars,
};
use crate::trusted::chars_to_string;

verus! {

/// Caller-supplied parsing options; the canonical JSON form needs none.
pub struct Settings {}

impl Default for Settings {
    /// The default settings carry nothing.
    fn default() -> (r: Self)
        ensures
            r == (Settings {  }),
    {
        Settings {  }
    }
}

/// JSON adapter.
pub struct AdapterJson;

pub open spec fn lit_value_key() -> Seq<char> {
    seq!['{', '"', 'v', 'a', 'l', 'u', 'e', '"', ':']
}

pub open spec fn lit_lower_key() -> Seq<char> {
    seq![',', '"', 'l', 'o', 'w', 'e', 'r', '_', 'b', 'o', 'u', 'n', 'd', '"', ':']
}

pub open spec fn lit_upper_key() -> Seq<char> {
    seq![',', '"', 'u', 'p', 'p', 'e', 'r', '_', 'b', 'o', 'u', 'n', 'd', '"', ':']
}

pub open spec fn lit_null() -> Seq<char> {
    seq!['n', 'u', 'l', 'l']
}

pub open spec fn lit_value_name() -> Seq<char> {
    seq!['"', 'v', 'a', 'l', 'u', 'e', '"']
}

pub open spec fn lit_lower_name() -> Seq<char> {
    seq!['"', 'l', 'o', 'w', 'e', 'r', '_', 'b', 'o', 'u', 'n', 'd', '"']
}

pub open spec fn lit_upper_name() -> Seq<char> {
    seq!['"', 'u', 'p', 'p', 'e', 'r', '_', 'b', 'o', 'u', 'n', 'd', '"']
}

/// JSON whitespace, insignificant between tokens.
pub open spec fn is_json_ws(c: char) -> bool {
    c == ' ' || c == '\t' || c == '\n' || c == '\r'
}

/// First position at or after `i` that does not hold whitespace.
pub open spec fn spec_skip_json_ws(s: Seq<char>, i: int) -> int
    decreases s.len() - i,
    when 0 <= i <= s.len()
{
    if i < s.len() && is_json_ws(s[i]) {
        spec_skip_json_ws(s, i + 1)
    } else {
        i
    }
}

/// A name the canonical form can carry: no quote, no backslash.
pub open spec fn json_name_ok(s: Seq<char>) -> bool {
    forall|i: int| 0 <= i < s.len() ==> s[i] != '"' && (#[trigger] s[i]) != '\\'
}

/// Canonical rendering of an optional bound.
pub open spec fn ser_opt(b: Option<u64>) -> Seq<char> {
    match b {
        None => lit_null(),
        Some(v) => dec_digits(v as int),
    }
}

/// Canonical rendering of one metric.
pub open spec fn ser_metric(m: JsonMetric) -> Seq<char> {
    lit_value_key() + dec_digits(m.value as int) + lit_lower_key() + ser_opt(m.lower_bound)
        + lit_upper_key() + ser_opt(m.upper_bound) + seq!['}']
}

/// Canonical rendering of a quoted name.
pub open spec fn ser_name(name: Seq<char>) -> Seq<char> {
    seq!['"'] + name + seq!['"']
}

/// Canonical rendering of the members of a metric-kind object.
pub open spec fn ser_kind_members(entries: Seq<(Seq<char>, JsonMetric)>) -> Seq<char>
    decreases entries.len(),
{
    if entries.len() == 0 {
        Seq::empty()
    } else {
        let head = ser_name(entries[0].0) + seq![':'] + ser_metric(entries[0].1);
        if entries.len() == 1 {
            head
        } else {
            head + seq![','] + ser_kind_members(entries.drop_first())
        }
    }
}

/// Canonical rendering of a metric-kind object.
pub open spec fn ser_kinds(entries: Seq<(Seq<char>, JsonMetric)>) -> Seq<char> {
    seq!['{'] + ser_kind_members(entries) + seq!['}']
}

/// Canonical rendering of the members of the benchmark map.
pub open spec fn ser_map_members(
    entries: Seq<(Seq<char>, Seq<(Seq<char>, JsonMetric)>)>,
) -> Seq<char>
    decreases entries.len(),
{
    if entries.len() == 0 {
        Seq::empty()
    } else {
        let head = ser_name(entries[0].0) + seq![':'] + ser_kinds(entries[0].1);
        if entries.len() == 1 {
            head
        } else {
            head + seq![','] + ser_map_members(entries.drop_first())
        }
    }
}

/// Canonical rendering of the whole benchmark map.
pub open spec fn ser_map(entries: Seq<(Seq<char>, Seq<(Seq<char>, JsonMetric)>)>) -> Seq<char> {
    seq!['{'] + ser_map_members(entries) + seq!['}']
}

/// An unsigned number in the canonical form; fails when it does not fit.
pub open spec fn pj_u64(s: Seq<char>, i: int) -> Option<(int, u64)> {
    match spec_digits1(s, i) {
        None => None,
        Some(j) => {
            let v = digits_value(s.subrange(i, j));
            if v <= u64::MAX {
                Some((j, v as u64))
            } else {
                None
            }
        },
    }
}

/// An optional bound: `null` or a number.
pub open spec fn pj_opt(s: Seq<char>, i: int) -> Option<(int, Option<u64>)> {
    match spec_lit(s, i, lit_null()) {
        Some(j) => Some((j, None)),
        None => match pj_u64(s, i) {
            Some((j, v)) => Some((j, Some(v))),
            None => None,
        },
    }
}

/// One metric in the canonical form: the fixed keys in order, whitespace
/// allowed between tokens.
pub open spec fn pj_metric(s: Seq<char>, i: int) -> Option<(int, JsonMetric)> {
    match spec_lit(s, i, seq!['{']) {
        None => None,
        Some(a0) => match spec_lit(s, spec_skip_json_ws(s, a0), lit_value_name()) {
            None => None,
            Some(a1) => match spec_lit(s, spec_skip_json_ws(s, a1), seq![':']) {
                None => None,
                Some(a2) => match pj_u64(s, spec_skip_json_ws(s, a2)) {
                    None => None,
                    Some((a3, value)) => match spec_lit(s, spec_skip_json_ws(s, a3), seq![',']) {
                        None => None,
                        Some(a4) => match spec_lit(
                            s,
                            spec_skip_json_ws(s, a4),
                            lit_lower_name(),
                        ) {
                            None => None,
                            Some(a5) => match spec_lit(s, spec_skip_json_ws(s, a5), seq![':']) {
                                None => None,
                                Some(a6) => match pj_opt(s, spec_skip_json_ws(s, a6)) {
                                    None => None,
                                    Some((a7, lower_bound)) => match spec_lit(
                                        s,
                                        spec_skip_json_ws(s, a7),
                                        seq![','],
                                    ) {
                                        None => None,
                                        Some(a8) => match spec_lit(
                                            s,
                                            spec_skip_json_ws(s, a8),
                                            lit_upper_name(),
                                        ) {
                                            None => None,
                                            Some(a9) => match spec_lit(
                                                s,
                                                spec_skip_json_ws(s, a9),
                                                seq![':'],
                                            ) {
                                                None => None,
                                                Some(a10) => match pj_opt(
                                                    s,
                                                    spec_skip_json_ws(s, a10),
                                                ) {
                                                    None => None,
                                                    Some((a11, upper_bound)) => match spec_lit(
                                                        s,
                                                        spec_skip_json_ws(s, a11),
                                                        seq!['}'],
                                                    ) {
                                                        None => None,
                                                        Some(a12) => Some(
                                                            (
                                                                a12,
                                                                JsonMetric {
                                                                    value,
                                                                    lower_bound,
                                                                    upper_bound,
                                                                },
                                                            ),
                                                        ),
                                                    },
                                                },
                                            },
                                        },
                                    },
                                },
                            },
                        },
                    },
                },
            },
        },
    }
}

/// A quoted name: everything up to the next quote. The form carries no
/// escapes, so a backslash in the content is refused.
pub open spec fn pj_string(s: Seq<char>, i: int) -> Option<(int, Seq<char>)> {
    if 0 <= i && i < s.len() && s[i] == '"' {
        match spec_find_char(s, i + 1, '"') {
            Some(j) => if json_name_ok(s.subrange(i + 1, j)) {
                Some((j + 1, s.subrange(i + 1, j)))
            } else {
                None
            },
            None => None,
        }
    } else {
        None
    }
}

/// The members of a metric-kind object, `"name":metric` separated by `,`,
/// whitespace allowed between tokens; yields the position after the last
/// member and its trailing whitespace.
pub open spec fn pj_kind_members(s: Seq<char>, i: int) -> Option<
    (int, Seq<(Seq<char>, JsonMetric)>),
>
    decreases s.len() - i,
    when 0 <= i <= s.len()
{
    match pj_string(s, i) {
        None => None,
        Some((i1, name)) => match spec_lit(s, spec_skip_json_ws(s, i1), seq![':']) {
            None => None,
            Some(i2) => match pj_metric(s, spec_skip_json_ws(s, i2)) {
                None => None,
                Some((i3, m)) => {
                    let w3 = spec_skip_json_ws(s, i3);
                    if i < w3 && w3 <= s.len() {
                        if w3 < s.len() && s[w3] == ',' {
                            let w4 = spec_skip_json_ws(s, w3 + 1);
                            if i < w4 && w4 <= s.len() {
                                match pj_kind_members(s, w4) {
                                    None => None,
                                    Some((i4, rest)) => Some((i4, seq![(name, m)] + rest)),
                                }
                            } else {
                                None
                            }
                        } else {
                            Some((w3, seq![(name, m)]))
                        }
                    } else {
                        None
                    }
                },
            },
        },
    }
}

/// A metric-kind object, whitespace allowed between tokens.
pub open spec fn pj_kinds(s: Seq<char>, i: int) -> Option<(int, Seq<(Seq<char>, JsonMetric)>)> {
    if 0 <= i && i < s.len() && s[i] == '{' {
        let w = spec_skip_json_ws(s, i + 1);
        if w < s.len() && s[w] == '}' {
            Some((w + 1, Seq::empty()))
        } else {
            match pj_kind_members(s, w) {
                None => None,
                Some((j, entries)) => match spec_lit(s, j, seq!['}']) {
                    None => None,
                    Some(j1) => Some((j1, entries)),
                },
            }
        }
    } else {
        None
    }
}

/// The members of the benchmark map, `"name":kinds` separated by `,`,
/// whitespace allowed between tokens; yields the position after the last
/// member and its trailing whitespace.
pub open spec fn pj_map_members(s: Seq<char>, i: int) -> Option<
    (int, Seq<(Seq<char>, Seq<(Seq<char>, JsonMetric)>)>),
>
    decreases s.len() - i,
    when 0 <= i <= s.len()
{
    match pj_string(s, i) {
        None => None,
        Some((i1, name)) => match spec_lit(s, spec_skip_json_ws(s, i1), seq![':']) {
            None => None,
            Some(i2) => match pj_kinds(s, spec_skip_json_ws(s, i2)) {
                None => None,
                Some((i3, kinds)) => {
                    let w3 = spec_skip_json_ws(s, i3);
                    if i < w3 && w3 <= s.len() {
                        if w3 < s.len() && s[w3] == ',' {
                            let w4 = spec_skip_json_ws(s, w3 + 1);
                            if i < w4 && w4 <= s.len() {
                                match pj_map_members(s, w4) {
                                    None => None,
                                    Some((i4, rest)) => Some((i4, seq![(name, kinds)] + rest)),
                                }
                            } else {
                                None
                            }
                        } else {
                            Some((w3, seq![(name, kinds)]))
                        }
                    } else {
                        None
                    }
                },
            },
        },
    }
}

/// The whole benchmark map object, whitespace allowed between tokens.
pub open spec fn pj_map(s: Seq<char>, i: int) -> Option<
    (int, Seq<(Seq<char>, Seq<(Seq<char>, JsonMetric)>)>),
> {
    if 0 <= i && i < s.len() && s[i] == '{' {
        let w = spec_skip_json_ws(s, i + 1);
        if w < s.len() && s[w] == '}' {
            Some((w + 1, Seq::empty()))
        } else {
            match pj_map_members(s, w) {
                None => None,
                Some((j, entries)) => match spec_lit(s, j, seq!['}']) {
                    None => None,
                    Some(j1) => Some((j1, entries)),
                },
            }
        }
    } else {
        None
    }
}

/// Every level of the parsed map has unique keys.
pub open spec fn parsed_map_wf(
    entries: Seq<(Seq<char>, Seq<(Seq<char>, JsonMetric)>)>,
) -> bool {
    keys_unique(entries) && forall|k: int|
        0 <= k < entries.len() ==> keys_unique(#[trigger] entries[k].1)
}

/// The canonical parse of a whole input: the map object, surrounded by
/// nothing but whitespace, with no duplicate keys at either level.
pub open spec fn spec_parse_json(s: Seq<char>) -> Option<
    Seq<(Seq<char>, Seq<(Seq<char>, JsonMetric)>)>,
> {
    match pj_map(s, spec_skip_json_ws(s, 0)) {
        None => None,
        Some((end, entries)) => if spec_skip_json_ws(s, end) == s.len() && parsed_map_wf(entries) {
            Some(entries)
        } else {
            None
        },
    }
}

/// View of a raw parsed kind list.
pub open spec fn kind_pairs_view(v: Seq<(String, JsonMetric)>) -> Seq<(Seq<char>, JsonMetric)> {
    Seq::new(v.len(), |i: int| (v[i].0@, v[i].1))
}

/// View of a raw parsed benchmark list.
pub open spec fn map_pairs_view(v: Seq<(String, JsonMetrics)>) -> Seq<
    (Seq<char>, Seq<(Seq<char>, JsonMetric)>),
> {
    Seq::new(v.len(), |i: int| (v[i].0@, v[i].1@))
}

fn push_all(out: &mut Vec<char>, piece: &Vec<char>)
    ensures
        final(out)@ == old(out)@ + piece@,
{
    let ghost base = old(out)@;
    let mut k: usize = 0;
    while k < piece.len()
        invariant
            k <= piece@.len(),
            out@ =~= base + piece@.take(k as int),
        decreases piece@.len() - k,
    {
        out.push(piece[k]);
        assert(out@ =~= base + piece@.take(k as int + 1));
        k = k + 1;
    }
    assert(piece@.take(piece@.len() as int) =~= piece@);
}

fn ser_opt_exec(b: &Option<u64>, out: &mut Vec<char>)
    ensures
        final(out)@ == old(out)@ + ser_opt(*b),
{
    match b {
        None => {
            let lit = vec!['n', 'u', 'l', 'l'];
            assert(lit@ =~= lit_null());
            push_all(out, &lit);
        },
        Some(v) => {
            let d = u64_to_dec_chars(*v);
            push_all(out, &d);
        },
    }
}

fn ser_metric_exec(m: &JsonMetric, out: &mut Vec<char>)
    ensures
        final(out)@ == old(out)@ + ser_metric(*m),
{
    let ghost base = old(out)@;
    let lit1 = vec!['{', '"', 'v', 'a', 'l', 'u', 'e', '"', ':'];
    assert(lit1@ =~= lit_value_key());
    push_all(out, &lit1);
    let d = u64_to_dec_chars(m.value);
    push_all(out, &d);
    let lit2 = vec![
        ',',
        '"',
        'l',
        'o',
        'w',
        'e',
        'r',
        '_',
        'b',
        'o',
        'u',
        'n',
        'd',
        '"',
        ':',
    ];
    assert(lit2@ =~= lit_lower_key());
    push_all(out, &lit2);
    ser_opt_exec(&m.lower_bound, out);
    let lit3 = vec![
        ',',
        '"',
        'u',
        'p',
        'p',
        'e',
        'r',
        '_',
        'b',
        'o',
        'u',
        'n',
        'd',
        '"',
        ':',
    ];
    assert(lit3@ =~= lit_upper_key());
    push_all(out, &lit3);
    ser_opt_exec(&m.upper_bound, out);
    out.push('}');
    assert(final(out)@ =~= base + ser_metric(*m)) by {
        assert(out@ =~= base + ser_metric(*m));
    }
}

fn ser_name_exec(name: &String, out: &mut Vec<char>)
    ensures
        final(out)@ == old(out)@ + ser_name(name@),
{
    let ghost base = old(out)@;
    out.push('"');
    let chars = str_to_chars(name.as_str());
    push_all(out, &chars);
    out.push('"');
    assert(out@ =~= base + ser_name(name@));
}

fn ser_kinds_exec(kinds: &JsonMetrics, out: &mut Vec<char>)
    ensures
        final(out)@ == old(out)@ + ser_kinds(kinds@),
{
    let ghost base = old(out)@;
    out.push('{');
    let n = kinds.inner.len();
    let mut i: usize = 0;
    let ghost mut done = Seq::<char>::empty();
    proof {
        assert(kinds@.skip(0) =~= kinds@);
    }
    while i < n
        invariant
            n == kinds@.len(),
            n == kinds.inner@.len(),
            i <= n,
            out@ =~= base + seq!['{'] + done,
            done + (if i == n {
                Seq::<char>::empty()
            } else if i == 0 {
                ser_kind_members(kinds@)
            } else {
                seq![','] + ser_kind_members(kinds@.skip(i as int))
            }) =~= ser_kind_members(kinds@),
        decreases n - i,
    {
        let ghost pre = done;
        proof {
            assert(kinds@.skip(i as int)[0] == kinds@[i as int]);
            assert(kinds@.skip(i as int).drop_first() =~= kinds@.skip(i as int + 1));
            assert(kinds@[i as int].0 == kinds.inner@[i as int].0@);
            assert(kinds@[i as int].1 == kinds.inner@[i as int].1);
        }
        if i > 0 {
            out.push(',');
            proof {
                done = pre + seq![','];
            }
        }
        let ghost mid = done;
        let pair = &kinds.inner[i];
        ser_name_exec(&pair.0, out);
        out.push(':');
        ser_metric_exec(&pair.1, out);
        proof {
            done = mid + ser_name(kinds@[i as int].0) + seq![':'] + ser_metric(kinds@[i as int].1);
            assert(out@ =~= base + seq!['{'] + done);
            let head = ser_name(kinds@.skip(i as int)[0].0) + seq![':'] + ser_metric(
                kinds@.skip(i as int)[0].1,
            );
            if kinds@.skip(i as int).len() == 1 {
                assert(ser_kind_members(kinds@.skip(i as int)) =~= head);
            } else {
                assert(ser_kind_members(kinds@.skip(i as int)) =~= head + seq![',']
                    + ser_kind_members(kinds@.skip(i as int + 1)));
            }
        }
        i = i + 1;
    }
    out.push('}');
    assert(out@ =~= base + ser_kinds(kinds@));
}

fn ser_map_exec(map: &JsonBenchmarksMap, out: &mut Vec<char>)
    ensures
        final(out)@ == old(out)@ + ser_map(map@),
{
    let ghost base = old(out)@;
    out.push('{');
    let n = map.inner.len();
    let mut i: usize = 0;
    let ghost mut done = Seq::<char>::empty();
    proof {
        assert(map@.skip(0) =~= map@);
    }
    while i < n
        invariant
            n == map@.len(),
            n == map.inner@.len(),
            i <= n,
            out@ =~= base + seq!['{'] + done,
            done + (if i == n {
                Seq::<char>::empty()
            } else if i == 0 {
                ser_map_members(map@)
            } else {
                seq![','] + ser_map_members(map@.skip(i as int))
            }) =~= ser_map_members(map@),
        decreases n - i,
    {
        let ghost pre = done;
        proof {
            assert(map@.skip(i as int)[0] == map@[i as int]);
            assert(map@.skip(i as int).drop_first() =~= map@.skip(i as int + 1));
            assert(map@[i as int].0 == map.inner@[i as int].0@);
            assert(map@[i as int].1 == map.inner@[i as int].1@);
        }
        if i > 0 {
            out.push(',');
            proof {
                done = pre + seq![','];
            }
        }
        let ghost mid = done;
        let pair = &map.inner[i];
        ser_name_exec(&pair.0, out);
        out.push(':');
        ser_kinds_exec(&pair.1, out);
        proof {
            done = mid + ser_name(map@[i as int].0) + seq![':'] + ser_kinds(map@[i as int].1);
            assert(out@ =~= base + seq!['{'] + done);
            let head = ser_name(map@.skip(i as int)[0].0) + seq![':'] + ser_kinds(
                map@.skip(i as int)[0].1,
            );
            if map@.skip(i as int).len() == 1 {
                assert(ser_map_members(map@.skip(i as int)) =~= head);
            } else {
                assert(ser_map_members(map@.skip(i as int)) =~= head + seq![','] + ser_map_members(
                    map@.skip(i as int + 1),
                ));
            }
        }
        i = i + 1;
    }
    out.push('}');
    assert(out@ =~= base + ser_map(map@));
}

/// Render the canonical form of a benchmark map. The form carries no
/// escapes, so every name must be representable: no quote, no backslash.
pub fn serialize_json(map: &JsonBenchmarksMap) -> (r: String)
    requires
        ser_names_ok(map@),
    ensures
        r@ == ser_map(map@),
{
    let mut out: Vec<char> = Vec::new();
    ser_map_exec(map, &mut out);
    chars_to_string(&out)
}

fn skip_json_ws(s: &Vec<char>, i: usize) -> (r: usize)
    requires
        i <= s@.len(),
    ensures
        r == spec_skip_json_ws(s@, i as int),
        i <= r <= s@.len(),
{
    let mut j = i;
    while j < s.len() && (s[j] == ' ' || s[j] == '\t' || s[j] == '\n' || s[j] == '\r')
        invariant
            i <= j <= s@.len(),
            spec_skip_json_ws(s@, i as int) == spec_skip_json_ws(s@, j as int),
        decreases s@.len() - j,
    {
        j = j + 1;
    }
    j
}

fn pj_u64_exec(s: &Vec<char>, i: usize) -> (r: Option<(usize, u64)>)
    requires
        i <= s@.len(),
    ensures
        match r {
            Some((j, v)) => pj_u64(s@, i as int) == Some((j as int, v)) && i < j <= s@.len(),
            None => pj_u64(s@, i as int) is None,
        },
{
    match digits1(s, i) {
        None => None,
        Some(j) => {
            let d = copy_range(s, i, j);
            match crate::adapter_rust::to_u64(&d) {
                Some(v) => Some((j, v)),
                None => None,
            }
        },
    }
}

fn pj_opt_exec(s: &Vec<char>, i: usize) -> (r: Option<(usize, Option<u64>)>)
    requires
        i <= s@.len(),
    ensures
        match r {
            Some((j, b)) => pj_opt(s@, i as int) == Some((j as int, b)) && i < j <= s@.len(),
            None => pj_opt(s@, i as int) is None,
        },
{
    let lit = vec!['n', 'u', 'l', 'l'];
    assert(lit@ =~= lit_null());
    match eat_lit(s, i, &lit) {
        Some(j) => Some((j, None)),
        None => match pj_u64_exec(s, i) {
            Some((j, v)) => Some((j, Some(v))),
            None => None,
        },
    }
}

fn pj_metric_exec(s: &Vec<char>, i: usize) -> (r: Option<(usize, JsonMetric)>)
    requires
        i <= s@.len(),
    ensures
        match r {
            Some((j, m)) => pj_metric(s@, i as int) == Some((j as int, m)) && i < j <= s@.len(),
            None => pj_metric(s@, i as int) is None,
        },
{
    let litb = vec!['{'];
    assert(litb@ =~= seq!['{']);
    let a0 = match eat_lit(s, i, &litb) {
        Some(x) => x,
        None => {
            return None;
        },
    };
    let lit_vn = vec!['"', 'v', 'a', 'l', 'u', 'e', '"'];
    assert(lit_vn@ =~= lit_value_name());
    let a1 = match eat_lit(s, skip_json_ws(s, a0), &lit_vn) {
        Some(x) => x,
        None => {
            return None;
        },
    };
    let lit_colon = vec![':'];
    assert(lit_colon@ =~= seq![':']);
    let a2 = match eat_lit(s, skip_json_ws(s, a1), &lit_colon) {
        Some(x) => x,
        None => {
            return None;
        },
    };
    let (a3, value) = match pj_u64_exec(s, skip_json_ws(s, a2)) {
        Some(x) => x,
        None => {
            return None;
        },
    };
    let lit_comma = vec![','];
    assert(lit_comma@ =~= seq![',']);
    let a4 = match eat_lit(s, skip_json_ws(s, a3), &lit_comma) {
        Some(x) => x,
        None => {
            return None;
        },
    };
    let lit_ln = vec!['"', 'l', 'o', 'w', 'e', 'r', '_', 'b', 'o', 'u', 'n', 'd', '"'];
    assert(lit_ln@ =~= lit_lower_name());
    let a5 = match eat_lit(s, skip_json_ws(s, a4), &lit_ln) {
        Some(x) => x,
        None => {
            return None;
        },
    };
    let a6 = match eat_lit(s, skip_json_ws(s, a5), &lit_colon) {
        Some(x) => x,
        None => {
            return None;
        },
    };
    let (a7, lower_bound) = match pj_opt_exec(s, skip_json_ws(s, a6)) {
        Some(x) => x,
        None => {
            return None;
        },
    };
    let a8 = match eat_lit(s, skip_json_ws(s, a7), &lit_comma) {
        Some(x) => x,
        None => {
            return None;
        },
    };
    let lit_un = vec!['"', 'u', 'p', 'p', 'e', 'r', '_', 'b', 'o', 'u', 'n', 'd', '"'];
    assert(lit_un@ =~= lit_upper_name());
    let a9 = match eat_lit(s, skip_json_ws(s, a8), &lit_un) {
        Some(x) => x,
        None => {
            return None;
        },
    };
    let a10 = match eat_lit(s, skip_json_ws(s, a9), &lit_colon) {
        Some(x) => x,
        None => {
            return None;
        },
    };
    let (a11, upper_bound) = match pj_opt_exec(s, skip_json_ws(s, a10)) {
        Some(x) => x,
        None => {
            return None;
        },
    };
    let lit_rb = vec!['}'];
    assert(lit_rb@ =~= seq!['}']);
    let a12 = match eat_lit(s, skip_json_ws(s, a11), &lit_rb) {
        Some(x) => x,
        None => {
            return None;
        },
    };
    Some((a12, JsonMetric { value, lower_bound, upper_bound }))
}

fn pj_string_exec(s: &Vec<char>, i: usize) -> (r: Option<(usize, String)>)
    requires
        i <= s@.len(),
    ensures
        match r {
            Some((j, name)) => pj_string(s@, i as int) == Some((j as int, name@)) && i < j
                <= s@.len(),
            None => pj_string(s@, i as int) is None,
        },
{
    if i < s.len() && s[i] == '"' {
        match find_char(s, i + 1, '"') {
            Some(j) => {
                let content = copy_range(s, i + 1, j);
                proof {
                    crate::text::lemma_find_char_before(s@, i as int + 1, '"');
                }
                let mut k: usize = 0;
                while k < content.len()
                    invariant
                        k <= content@.len(),
                        i < s@.len(),
                        s@[i as int] == '"',
                        i + 1 <= j <= s@.len(),
                        spec_find_char(s@, i as int + 1, '"') == Some(j as int),
                        content@ == s@.subrange(i as int + 1, j as int),
                        forall|t: int| 0 <= t < k ==> (#[trigger] content@[t]) != '\\',
                    decreases content@.len() - k,
                {
                    if content[k] == '\\' {
                        proof {
                            assert(s@.subrange(i as int + 1, j as int)[k as int] == '\\');
                            assert(!json_name_ok(s@.subrange(i as int + 1, j as int)));
                        }
                        return None;
                    }
                    k = k + 1;
                }
                proof {
                    let c = s@.subrange(i as int + 1, j as int);
                    assert forall|t: int| 0 <= t < c.len() implies c[t] != '"' && (#[trigger] c[t])
                        != '\\' by {
                        assert(c[t] == s@[i + 1 + t]);
                    }
                    assert(json_name_ok(c));
                }
                Some((j + 1, chars_to_string(&content)))
            },
            None => None,
        }
    } else {
        None
    }
}

fn pj_kind_members_exec(s: &Vec<char>, i: usize) -> (r: Option<(usize, Vec<(String, JsonMetric)>)>)
    requires
        i <= s@.len(),
    ensures
        match r {
            Some((j, v)) => pj_kind_members(s@, i as int) == Some((j as int, kind_pairs_view(v@)))
                && i < j <= s@.len(),
            None => pj_kind_members(s@, i as int) is None,
        },
    decreases s@.len() - i,
{
    let (i1, name) = match pj_string_exec(s, i) {
        Some(x) => x,
        None => {
            return None;
        },
    };
    let litc = vec![':'];
    assert(litc@ =~= seq![':']);
    let i2 = match eat_lit(s, skip_json_ws(s, i1), &litc) {
        Some(x) => x,
        None => {
            return None;
        },
    };
    let (i3, m) = match pj_metric_exec(s, skip_json_ws(s, i2)) {
        Some(x) => x,
        None => {
            return None;
        },
    };
    let w3 = skip_json_ws(s, i3);
    if w3 < s.len() && s[w3] == ',' {
        let w4 = skip_json_ws(s, w3 + 1);
        match pj_kind_members_exec(s, w4) {
            None => None,
            Some((i4, mut rest)) => {
                let ghost restv = rest@;
                let mut out: Vec<(String, JsonMetric)> = Vec::new();
                out.push((name, m));
                out.append(&mut rest);
                assert(kind_pairs_view(out@) =~= seq![(name@, m)] + kind_pairs_view(restv));
                Some((i4, out))
            },
        }
    } else {
        let mut out: Vec<(String, JsonMetric)> = Vec::new();
        out.push((name, m));
        assert(kind_pairs_view(out@) =~= seq![(name@, m)]);
        Some((w3, out))
    }
}

fn pj_kinds_exec(s: &Vec<char>, i: usize) -> (r: Option<(usize, JsonMetrics)>)
    requires
        i <= s@.len(),
    ensures
        match r {
            Some((j, v)) => pj_kinds(s@, i as int) == Some((j as int, v@)) && i < j <= s@.len(),
            None => pj_kinds(s@, i as int) is None,
        },
{
    if i < s.len() && s[i] == '{' {
        let w = skip_json_ws(s, i + 1);
        if w < s.len() && s[w] == '}' {
            let v = JsonMetrics::new();
            return Some((w + 1, v));
        }
        match pj_kind_members_exec(s, w) {
            None => None,
            Some((j, pairs)) => {
                let litb = vec!['}'];
                assert(litb@ =~= seq!['}']);
                match eat_lit(s, j, &litb) {
                    None => None,
                    Some(j1) => {
                        let v = JsonMetrics { inner: pairs };
                        assert(v@ =~= kind_pairs_view(v.inner@));
                        Some((j1, v))
                    },
                }
            },
        }
    } else {
        None
    }
}

fn pj_map_members_exec(s: &Vec<char>, i: usize) -> (r: Option<(usize, Vec<(String, JsonMetrics)>)>)
    requires
        i <= s@.len(),
    ensures
        match r {
            Some((j, v)) => pj_map_members(s@, i as int) == Some((j as int, map_pairs_view(v@)))
                && i < j <= s@.len(),
            None => pj_map_members(s@, i as int) is None,
        },
    decreases s@.len() - i,
{
    let (i1, name) = match pj_string_exec(s, i) {
        Some(x) => x,
        None => {
            return None;
        },
    };
    let litc = vec![':'];
    assert(litc@ =~= seq![':']);
    let i2 = match eat_lit(s, skip_json_ws(s, i1), &litc) {
        Some(x) => x,
        None => {
            return None;
        },
    };
    let (i3, kinds) = match pj_kinds_exec(s, skip_json_ws(s, i2)) {
        Some(x) => x,
        None => {
            return None;
        },
    };
    let w3 = skip_json_ws(s, i3);
    if w3 < s.len() && s[w3] == ',' {
        let w4 = skip_json_ws(s, w3 + 1);
        match pj_map_members_exec(s, w4) {
            None => None,
            Some((i4, mut rest)) => {
                let ghost restv = rest@;
                let ghost kv = kinds@;
                let mut out: Vec<(String, JsonMetrics)> = Vec::new();
                out.push((name, kinds));
                out.append(&mut rest);
                assert(map_pairs_view(out@) =~= seq![(name@, kv)] + map_pairs_view(restv));
                Some((i4, out))
            },
        }
    } else {
        let ghost kv = kinds@;
        let mut out: Vec<(String, JsonMetrics)> = Vec::new();
        out.push((name, kinds));
        assert(map_pairs_view(out@) =~= seq![(name@, kv)]);
        Some((w3, out))
    }
}

fn kinds_unique_exec(v: &Vec<(String, JsonMetric)>) -> (r: bool)
    ensures
        r == keys_unique(kind_pairs_view(v@)),
{
    let ghost view = kind_pairs_view(v@);
    let mut i: usize = 0;
    while i < v.len()
        invariant
            i <= v@.len(),
            view == kind_pairs_view(v@),
            forall|a: int, b: int| 0 <= a < b < i ==> view[a].0 != view[b].0,
        decreases v@.len() - i,
    {
        let mut j: usize = 0;
        while j < i
            invariant
                j <= i < v@.len(),
                view == kind_pairs_view(v@),
                forall|a: int, b: int| 0 <= a < b < i ==> view[a].0 != view[b].0,
                forall|a: int| 0 <= a < j ==> view[a].0 != view[i as int].0,
            decreases i - j,
        {
            if v[j].0 == v[i].0 {
                assert(view[j as int].0 == view[i as int].0);
                assert(!keys_unique(view));
                return false;
            }
            j = j + 1;
        }
        i = i + 1;
    }
    true
}

fn map_unique_exec(v: &Vec<(String, JsonMetrics)>) -> (r: bool)
    ensures
        r == keys_unique(map_pairs_view(v@)),
{
    let ghost view = map_pairs_view(v@);
    let mut i: usize = 0;
    while i < v.len()
        invariant
            i <= v@.len(),
            view == map_pairs_view(v@),
            forall|a: int, b: int| 0 <= a < b < i ==> view[a].0 != view[b].0,
        decreases v@.len() - i,
    {
        let mut j: usize = 0;
        while j < i
            invariant
                j <= i < v@.len(),
                view == map_pairs_view(v@),
                forall|a: int, b: int| 0 <= a < b < i ==> view[a].0 != view[b].0,
                forall|a: int| 0 <= a < j ==> view[a].0 != view[i as int].0,
            decreases i - j,
        {
            if v[j].0 == v[i].0 {
                assert(view[j as int].0 == view[i as int].0);
                assert(!keys_unique(view));
                return false;
            }
            j = j + 1;
        }
        i = i + 1;
    }
    true
}

/// Parse a whole input against the canonical form: all-or-nothing, and
/// `Ok` exactly when the input is canonical.
pub fn parse_json(input: &str) -> (r: Result<JsonBenchmarksMap, AdapterError>)
    ensures
        match r {
            Ok(map) => match spec_parse_json(input@) {
                Some(entries) => map@ == entries,
                None => false,
            },
            Err(_) => spec_parse_json(input@) is None,
        },
{
    let s = str_to_chars(input);
    let w0 = skip_json_ws(&s, 0);
    if !(w0 < s.len()) {
        return Err(AdapterError::Parse { pos: 0 });
    }
    if !(s[w0] == '{') {
        return Err(AdapterError::Parse { pos: w0 });
    }
    let wb = skip_json_ws(&s, w0 + 1);
    let (end, map) = if wb < s.len() && s[wb] == '}' {
        (wb + 1, JsonBenchmarksMap::new())
    } else {
        match pj_map_members_exec(&s, wb) {
            None => {
                return Err(AdapterError::Parse { pos: wb });
            },
            Some((j, pairs)) => {
                let litb = vec!['}'];
                assert(litb@ =~= seq!['}']);
                match eat_lit(&s, j, &litb) {
                    None => {
                        return Err(AdapterError::Parse { pos: j });
                    },
                    Some(j1) => {
                        let m = JsonBenchmarksMap { inner: pairs };
                        assert(m@ =~= map_pairs_view(m.inner@));
                        (j1, m)
                    },
                }
            },
        }
    };
    assert(pj_map(s@, w0 as int) == Some((end as int, map@)));
    let wend = skip_json_ws(&s, end);
    if wend != s.len() {
        return Err(AdapterError::Parse { pos: wend });
    }
    if !map_unique_exec(&map.inner) {
        assert(!parsed_map_wf(map@));
        return Err(AdapterError::Parse { pos: 0 });
    }
    let mut k: usize = 0;
    let ghost entries = map@;
    let ghost send = end as int;
    while k < map.inner.len()
        invariant
            k <= map@.len(),
            entries == map@,
            map@.len() == map.inner@.len(),
            s@ == input@,
            pj_map(input@, spec_skip_json_ws(input@, 0)) == Some((send, entries)),
            spec_skip_json_ws(input@, send) == input@.len(),
            0 <= send <= input@.len(),
            keys_unique(entries),
            forall|t: int| 0 <= t < k ==> keys_unique(#[trigger] entries[t].1),
        decreases map@.len() - k,
    {
        proof {
            assert(map@[k as int].1 == map.inner@[k as int].1@);
            assert(map.inner@[k as int].1@ =~= kind_pairs_view(map.inner@[k as int].1.inner@));
        }
        if !kinds_unique_exec(&map.inner[k].1.inner) {
            assert(!keys_unique(entries[k as int].1));
            assert(!parsed_map_wf(entries));
            return Err(AdapterError::Parse { pos: 0 });
        }
        k = k + 1;
    }
    Ok(map)
}

/// At a position holding no whitespace (or the end), the skip stays put.
proof fn lemma_ws_noop(s: Seq<char>, i: int)
    requires
        0 <= i <= s.len(),
        i == s.len() || !is_json_ws(s[i]),
    ensures
        spec_skip_json_ws(s, i) == i,
{
}

proof fn lemma_subrange_split(s: Seq<char>, i: int, a: Seq<char>, b: Seq<char>)
    requires
        0 <= i,
        i + a.len() + b.len() <= s.len(),
        s.subrange(i, i + a.len() + b.len()) == a + b,
    ensures
        s.subrange(i, i + a.len()) == a,
        s.subrange(i + a.len(), i + a.len() + b.len()) == b,
{
    let whole = s.subrange(i, i + a.len() + b.len());
    assert forall|k: int| 0 <= k < a.len() implies s.subrange(i, i + a.len())[k] == a[k] by {
        assert(whole[k] == (a + b)[k]);
    }
    assert(s.subrange(i, i + a.len()) =~= a);
    assert forall|k: int| 0 <= k < b.len() implies s.subrange(
        i + a.len(),
        i + a.len() + b.len(),
    )[k] == b[k] by {
        assert(whole[a.len() + k] == (a + b)[a.len() + k]);
    }
    assert(s.subrange(i + a.len(), i + a.len() + b.len()) =~= b);
}

proof fn lemma_skip_digits_at(s: Seq<char>, i: int, n: int)
    requires
        0 <= i,
        0 <= n,
        i + n <= s.len(),
        forall|k: int| i <= k < i + n ==> is_digit_char(#[trigger] s[k]),
        i + n == s.len() || !is_digit_char(s[i + n]),
    ensures
        spec_skip_digits(s, i) == i + n,
    decreases n,
{
    if n == 0 {
    } else {
        assert(is_digit_char(s[i]));
        lemma_skip_digits_at(s, i + 1, n - 1);
    }
}

proof fn lemma_pj_u64_at(s: Seq<char>, i: int, v: u64)
    requires
        0 <= i,
        i + dec_digits(v as int).len() <= s.len(),
        s.subrange(i, i + dec_digits(v as int).len()) == dec_digits(v as int),
        i + dec_digits(v as int).len() == s.len() || !is_digit_char(
            s[i + dec_digits(v as int).len()],
        ),
    ensures
        pj_u64(s, i) == Some((i + dec_digits(v as int).len(), v)),
{
    let d = dec_digits(v as int);
    crate::text::lemma_dec_digits_are_digits(v as int);
    crate::text::lemma_dec_digits_value(v as int);
    assert forall|k: int| i <= k < i + d.len() implies is_digit_char(#[trigger] s[k]) by {
        assert(s.subrange(i, i + d.len())[k - i] == s[k]);
        assert(d[k - i] == s[k]);
    }
    lemma_skip_digits_at(s, i, d.len() as int);
    assert(is_digit_char(s[i]));
    assert(spec_digits1(s, i) == Some(i + d.len()));
}

proof fn lemma_find_char_at(s: Seq<char>, i: int, n: int, c: char)
    requires
        0 <= i,
        0 <= n,
        i + n < s.len(),
        forall|k: int| i <= k < i + n ==> s[k] != c,
        s[i + n] == c,
    ensures
        spec_find_char(s, i, c) == Some(i + n),
    decreases n,
{
    if n == 0 {
    } else {
        assert(s[i] != c);
        lemma_find_char_at(s, i + 1, n - 1, c);
    }
}

proof fn lemma_pj_string_at(s: Seq<char>, i: int, name: Seq<char>)
    requires
        0 <= i,
        json_name_ok(name),
        i + name.len() + 2 <= s.len(),
        s.subrange(i, i + name.len() + 2) == ser_name(name),
    ensures
        pj_string(s, i) == Some((i + name.len() + 2, name)),
{
    let w = s.subrange(i, i + name.len() + 2);
    assert(s[i] == w[0]);
    assert(w[0] == '"');
    assert(s[i + name.len() + 1] == w[name.len() as int + 1]);
    assert(w[name.len() as int + 1] == '"');
    assert forall|k: int| i + 1 <= k < i + 1 + name.len() implies s[k] != '"' by {
        assert(w[k - i] == name[k - i - 1]);
        assert(s[k] == name[k - i - 1]);
    }
    lemma_find_char_at(s, i + 1, name.len() as int, '"');
    assert(spec_find_char(s, i + 1, '"') == Some(i + 1 + name.len()));
    assert forall|k: int| 0 <= k < name.len() implies s.subrange(i + 1, i + 1 + name.len())[k]
        == name[k] by {
        assert(w[k + 1] == name[k]);
    }
    assert(s.subrange(i + 1, i + 1 + name.len()) =~= name);
    assert(json_name_ok(s.subrange(i + 1, i + 1 + name.len())));
}

proof fn lemma_pj_opt_at(s: Seq<char>, i: int, b: Option<u64>)
    requires
        0 <= i,
        i + ser_opt(b).len() <= s.len(),
        s.subrange(i, i + ser_opt(b).len()) == ser_opt(b),
        i + ser_opt(b).len() == s.len() || !is_digit_char(s[i + ser_opt(b).len()]),
        i + ser_opt(b).len() == s.len() || s[i + ser_opt(b).len()] != 'u',
    ensures
        pj_opt(s, i) == Some((i + ser_opt(b).len(), b)),
{
    match b {
        None => {
            assert(spec_lit(s, i, lit_null()) == Some(i + 4));
        },
        Some(v) => {
            let d = dec_digits(v as int);
            crate::text::lemma_dec_digits_are_digits(v as int);
            assert(s[i] == s.subrange(i, i + d.len())[0]);
            assert(is_digit_char(s[i]));
            if i + lit_null().len() <= s.len() {
                if s.subrange(i, i + lit_null().len()) == lit_null() {
                    assert(s[i] == lit_null()[0]);
                    assert(s[i] == 'n');
                    assert(false);
                }
            }
            assert(spec_lit(s, i, lit_null()) is None);
            lemma_pj_u64_at(s, i, v);
        },
    }
}

#[verifier::rlimit(100)]
proof fn lemma_pj_metric_at(s: Seq<char>, i: int, m: JsonMetric)
    requires
        0 <= i,
        i + ser_metric(m).len() <= s.len(),
        s.subrange(i, i + ser_metric(m).len()) == ser_metric(m),
    ensures
        pj_metric(s, i) == Some((i + ser_metric(m).len(), m)),
{
    let a1 = lit_value_key();
    let d = dec_digits(m.value as int);
    let a2 = lit_lower_key();
    let b1 = ser_opt(m.lower_bound);
    let a3 = lit_upper_key();
    let b2 = ser_opt(m.upper_bound);
    let a4 = seq!['}'];
    assert(ser_metric(m) =~= a1 + (d + (a2 + (b1 + (a3 + (b2 + a4))))));
    lemma_subrange_split(s, i, a1, d + (a2 + (b1 + (a3 + (b2 + a4)))));
    let i1 = i + a1.len();
    lemma_subrange_split(s, i1, d, a2 + (b1 + (a3 + (b2 + a4))));
    let i2 = i1 + d.len();
    lemma_subrange_split(s, i2, a2, b1 + (a3 + (b2 + a4)));
    let i3 = i2 + a2.len();
    lemma_subrange_split(s, i3, b1, a3 + (b2 + a4));
    let i4 = i3 + b1.len();
    lemma_subrange_split(s, i4, a3, b2 + a4);
    let i5 = i4 + a3.len();
    lemma_subrange_split(s, i5, b2, a4);
    let i6 = i5 + b2.len();
    assert(a1 =~= seq!['{'] + (lit_value_name() + seq![':']));
    lemma_subrange_split(s, i, seq!['{'], lit_value_name() + seq![':']);
    lemma_subrange_split(s, i + 1, lit_value_name(), seq![':']);
    assert(a2 =~= seq![','] + (lit_lower_name() + seq![':']));
    lemma_subrange_split(s, i2, seq![','], lit_lower_name() + seq![':']);
    lemma_subrange_split(s, i2 + 1, lit_lower_name(), seq![':']);
    assert(a3 =~= seq![','] + (lit_upper_name() + seq![':']));
    lemma_subrange_split(s, i4, seq![','], lit_upper_name() + seq![':']);
    lemma_subrange_split(s, i4 + 1, lit_upper_name(), seq![':']);
    assert(s[i] == s.subrange(i, i + 1)[0]);
    assert(s[i] == '{');
    assert(spec_lit(s, i, seq!['{']) == Some(i + 1));
    assert(s[i + 1] == s.subrange(i + 1, i + 8)[0]);
    assert(s[i + 1] == '"');
    lemma_ws_noop(s, i + 1);
    assert(spec_lit(s, i + 1, lit_value_name()) == Some(i + 8));
    assert(s[i + 8] == s.subrange(i + 8, i1)[0]);
    assert(s[i + 8] == ':');
    lemma_ws_noop(s, i + 8);
    assert(spec_lit(s, i + 8, seq![':']) == Some(i1));
    crate::text::lemma_dec_digits_are_digits(m.value as int);
    assert(s[i1] == s.subrange(i1, i2)[0]);
    assert(is_digit_char(s[i1]));
    lemma_ws_noop(s, i1);
    assert(s[i2] == s.subrange(i2, i2 + 1)[0]);
    assert(s[i2] == ',');
    lemma_pj_u64_at(s, i1, m.value);
    assert(pj_u64(s, i1) == Some((i2, m.value)));
    lemma_ws_noop(s, i2);
    assert(spec_lit(s, i2, seq![',']) == Some(i2 + 1));
    assert(s[i2 + 1] == s.subrange(i2 + 1, i2 + 14)[0]);
    assert(s[i2 + 1] == '"');
    lemma_ws_noop(s, i2 + 1);
    assert(spec_lit(s, i2 + 1, lit_lower_name()) == Some(i2 + 14));
    assert(s[i2 + 14] == s.subrange(i2 + 14, i3)[0]);
    assert(s[i2 + 14] == ':');
    lemma_ws_noop(s, i2 + 14);
    assert(spec_lit(s, i2 + 14, seq![':']) == Some(i3));
    assert(s[i3] == s.subrange(i3, i4)[0]);
    assert(s[i3] == b1[0]);
    assert(!is_json_ws(s[i3])) by {
        match m.lower_bound {
            None => {
                assert(b1[0] == 'n');
            },
            Some(v) => {
                crate::text::lemma_dec_digits_are_digits(v as int);
                assert(is_digit_char(b1[0]));
            },
        }
    }
    lemma_ws_noop(s, i3);
    assert(s[i4] == s.subrange(i4, i4 + 1)[0]);
    assert(s[i4] == ',');
    lemma_pj_opt_at(s, i3, m.lower_bound);
    lemma_ws_noop(s, i4);
    assert(spec_lit(s, i4, seq![',']) == Some(i4 + 1));
    assert(s[i4 + 1] == s.subrange(i4 + 1, i4 + 14)[0]);
    assert(s[i4 + 1] == '"');
    lemma_ws_noop(s, i4 + 1);
    assert(spec_lit(s, i4 + 1, lit_upper_name()) == Some(i4 + 14));
    assert(s[i4 + 14] == s.subrange(i4 + 14, i5)[0]);
    assert(s[i4 + 14] == ':');
    lemma_ws_noop(s, i4 + 14);
    assert(spec_lit(s, i4 + 14, seq![':']) == Some(i5));
    assert(s[i5] == s.subrange(i5, i6)[0]);
    assert(s[i5] == b2[0]);
    assert(!is_json_ws(s[i5])) by {
        match m.upper_bound {
            None => {
                assert(b2[0] == 'n');
            },
            Some(v) => {
                crate::text::lemma_dec_digits_are_digits(v as int);
                assert(is_digit_char(b2[0]));
            },
        }
    }
    lemma_ws_noop(s, i5);
    assert(s[i6] == s.subrange(i6, i6 + 1)[0]);
    assert(s[i6] == '}');
    lemma_pj_opt_at(s, i5, m.upper_bound);
    lemma_ws_noop(s, i6);
    assert(spec_lit(s, i6, a4) == Some(i6 + 1));
}

/// Every name at both levels is representable in the canonical form.
pub open spec fn ser_names_ok(entries: Seq<(Seq<char>, Seq<(Seq<char>, JsonMetric)>)>) -> bool {
    forall|k: int|
        0 <= k < entries.len() ==> json_name_ok((#[trigger] entries[k]).0) && json_name_ok_all(
            entries[k].1,
        )
}

/// Every kind name of one benchmark is representable.
pub open spec fn json_name_ok_all(kinds: Seq<(Seq<char>, JsonMetric)>) -> bool {
    forall|k: int| 0 <= k < kinds.len() ==> json_name_ok((#[trigger] kinds[k]).0)
}

#[verifier::rlimit(100)]
proof fn lemma_pj_kind_members_at(s: Seq<char>, i: int, entries: Seq<(Seq<char>, JsonMetric)>)
    requires
        0 <= i,
        entries.len() >= 1,
        json_name_ok_all(entries),
        i + ser_kind_members(entries).len() < s.len(),
        s.subrange(i, i + ser_kind_members(entries).len()) == ser_kind_members(entries),
        s[i + ser_kind_members(entries).len()] == '}',
    ensures
        pj_kind_members(s, i) == Some((i + ser_kind_members(entries).len(), entries)),
    decreases entries.len(),
{
    let e0 = entries[0];
    let sn = ser_name(e0.0);
    let sm = ser_metric(e0.1);
    let head = sn + seq![':'] + sm;
    let total = ser_kind_members(entries);
    if entries.len() == 1 {
        assert(total =~= sn + (seq![':'] + sm));
        lemma_subrange_split(s, i, sn, seq![':'] + sm);
        let i1 = i + sn.len();
        lemma_subrange_split(s, i1, seq![':'], sm);
        let i2 = i1 + 1;
        assert(json_name_ok(e0.0));
        lemma_pj_string_at(s, i, e0.0);
        assert(s[i1] == s.subrange(i1, i2)[0]);
        lemma_ws_noop(s, i1);
        assert(spec_lit(s, i1, seq![':']) == Some(i2));
        assert(s[i2] == s.subrange(i2, i2 + sm.len())[0]);
        assert(sm[0] == '{');
        lemma_ws_noop(s, i2);
        lemma_pj_metric_at(s, i2, e0.1);
        let i3 = i2 + sm.len();
        assert(i3 == i + total.len());
        assert(s[i3] == '}');
        lemma_ws_noop(s, i3);
        assert(entries =~= seq![(e0.0, e0.1)]);
    } else {
        let rest = entries.drop_first();
        let restser = ser_kind_members(rest);
        assert(total =~= sn + (seq![':'] + (sm + (seq![','] + restser))));
        lemma_subrange_split(s, i, sn, seq![':'] + (sm + (seq![','] + restser)));
        let i1 = i + sn.len();
        lemma_subrange_split(s, i1, seq![':'], sm + (seq![','] + restser));
        let i2 = i1 + 1;
        lemma_subrange_split(s, i2, sm, seq![','] + restser);
        let i3 = i2 + sm.len();
        lemma_subrange_split(s, i3, seq![','], restser);
        let i4 = i3 + 1;
        assert(json_name_ok(e0.0));
        lemma_pj_string_at(s, i, e0.0);
        assert(s[i1] == s.subrange(i1, i2)[0]);
        lemma_ws_noop(s, i1);
        assert(spec_lit(s, i1, seq![':']) == Some(i2));
        assert(s[i2] == s.subrange(i2, i3)[0]);
        assert(sm[0] == '{');
        lemma_ws_noop(s, i2);
        lemma_pj_metric_at(s, i2, e0.1);
        assert(s[i3] == s.subrange(i3, i4)[0]);
        assert(s[i3] == ',');
        lemma_ws_noop(s, i3);
        assert(s[i4] == s.subrange(i4, i4 + restser.len())[0]);
        assert(restser[0] == ser_name(rest[0].0)[0]);
        assert(s[i4] == '"');
        lemma_ws_noop(s, i4);
        assert(json_name_ok_all(rest)) by {
            assert forall|k: int| 0 <= k < rest.len() implies json_name_ok(
                (#[trigger] rest[k]).0,
            ) by {
                assert(rest[k] == entries[k + 1]);
            }
        }
        lemma_pj_kind_members_at(s, i4, rest);
        assert(entries =~= seq![(e0.0, e0.1)] + rest);
    }
}

proof fn lemma_pj_kinds_at(s: Seq<char>, i: int, entries: Seq<(Seq<char>, JsonMetric)>)
    requires
        0 <= i,
        json_name_ok_all(entries),
        i + ser_kinds(entries).len() <= s.len(),
        s.subrange(i, i + ser_kinds(entries).len()) == ser_kinds(entries),
    ensures
        pj_kinds(s, i) == Some((i + ser_kinds(entries).len(), entries)),
{
    let total = ser_kinds(entries);
    let w = s.subrange(i, i + total.len());
    assert(s[i] == w[0]);
    assert(s[i] == '{');
    if entries.len() == 0 {
        assert(total =~= seq!['{', '}']);
        assert(s[i + 1] == w[1]);
        assert(s[i + 1] == '}');
        lemma_ws_noop(s, i + 1);
        assert(entries =~= Seq::<(Seq<char>, JsonMetric)>::empty());
    } else {
        let members = ser_kind_members(entries);
        assert(members.len() >= 1) by {
            assert(ser_name(entries[0].0).len() >= 2);
        }
        assert(total =~= seq!['{'] + (members + seq!['}']));
        lemma_subrange_split(s, i, seq!['{'], members + seq!['}']);
        lemma_subrange_split(s, i + 1, members, seq!['}']);
        assert(s[i + 1] == s.subrange(i + 1, i + 1 + members.len())[0]);
        assert(s[i + 1] == members[0]);
        assert(members[0] == ser_name(entries[0].0)[0]) by {
            if entries.len() == 1 {
            } else {
            }
        }
        assert(members[0] == '"');
        lemma_ws_noop(s, i + 1);
        assert(s[i + 1 + members.len()] == s.subrange(
            i + 1 + members.len(),
            i + 1 + members.len() + 1,
        )[0]);
        assert(s[i + 1 + members.len()] == '}');
        lemma_pj_kind_members_at(s, i + 1, entries);
        assert(spec_lit(s, i + 1 + members.len(), seq!['}']) == Some(i + total.len()));
    }
}

#[verifier::rlimit(100)]
proof fn lemma_pj_map_members_at(
    s: Seq<char>,
    i: int,
    entries: Seq<(Seq<char>, Seq<(Seq<char>, JsonMetric)>)>,
)
    requires
        0 <= i,
        entries.len() >= 1,
        ser_names_ok(entries),
        i + ser_map_members(entries).len() < s.len(),
        s.subrange(i, i + ser_map_members(entries).len()) == ser_map_members(entries),
        s[i + ser_map_members(entries).len()] == '}',
    ensures
        pj_map_members(s, i) == Some((i + ser_map_members(entries).len(), entries)),
    decreases entries.len(),
{
    let e0 = entries[0];
    let sn = ser_name(e0.0);
    let sk = ser_kinds(e0.1);
    let total = ser_map_members(entries);
    if entries.len() == 1 {
        assert(total =~= sn + (seq![':'] + sk));
        lemma_subrange_split(s, i, sn, seq![':'] + sk);
        let i1 = i + sn.len();
        lemma_subrange_split(s, i1, seq![':'], sk);
        let i2 = i1 + 1;
        assert(json_name_ok(e0.0));
        lemma_pj_string_at(s, i, e0.0);
        assert(s[i1] == s.subrange(i1, i2)[0]);
        lemma_ws_noop(s, i1);
        assert(spec_lit(s, i1, seq![':']) == Some(i2));
        assert(s[i2] == s.subrange(i2, i2 + sk.len())[0]);
        assert(sk[0] == '{');
        lemma_ws_noop(s, i2);
        lemma_pj_kinds_at(s, i2, e0.1);
        let i3 = i2 + sk.len();
        assert(i3 == i + total.len());
        assert(s[i3] == '}');
        lemma_ws_noop(s, i3);
        assert(entries =~= seq![(e0.0, e0.1)]);
    } else {
        let rest = entries.drop_first();
        let restser = ser_map_members(rest);
        assert(total =~= sn + (seq![':'] + (sk + (seq![','] + restser))));
        lemma_subrange_split(s, i, sn, seq![':'] + (sk + (seq![','] + restser)));
        let i1 = i + sn.len();
        lemma_subrange_split(s, i1, seq![':'], sk + (seq![','] + restser));
        let i2 = i1 + 1;
        lemma_subrange_split(s, i2, sk, seq![','] + restser);
        let i3 = i2 + sk.len();
        lemma_subrange_split(s, i3, seq![','], restser);
        let i4 = i3 + 1;
        assert(json_name_ok(e0.0));
        lemma_pj_string_at(s, i, e0.0);
        assert(s[i1] == s.subrange(i1, i2)[0]);
        lemma_ws_noop(s, i1);
        assert(spec_lit(s, i1, seq![':']) == Some(i2));
        assert(s[i2] == s.subrange(i2, i3)[0]);
        assert(sk[0] == '{');
        lemma_ws_noop(s, i2);
        lemma_pj_kinds_at(s, i2, e0.1);
        assert(s[i3] == s.subrange(i3, i4)[0]);
        assert(s[i3] == ',');
        lemma_ws_noop(s, i3);
        assert(s[i4] == s.subrange(i4, i4 + restser.len())[0]);
        assert(restser[0] == ser_name(rest[0].0)[0]);
        assert(s[i4] == '"');
        lemma_ws_noop(s, i4);
        assert(ser_names_ok(rest)) by {
            assert forall|k: int| 0 <= k < rest.len() implies json_name_ok(
                (#[trigger] rest[k]).0,
            ) && json_name_ok_all(rest[k].1) by {
                assert(rest[k] == entries[k + 1]);
            }
        }
        lemma_pj_map_members_at(s, i4, rest);
        assert(entries =~= seq![(e0.0, e0.1)] + rest);
    }
}

/// Round trip: the canonical rendering of any well-formed benchmark map
/// parses back to an equal map. Well-formed means unique keys at both
/// levels and names without quote or backslash characters.
pub proof fn lemma_json_round_trip(entries: Seq<(Seq<char>, Seq<(Seq<char>, JsonMetric)>)>)
    requires
        parsed_map_wf(entries),
        ser_names_ok(entries),
    ensures
        spec_parse_json(ser_map(entries)) == Some(entries),
{
    let s = ser_map(entries);
    assert(s[0] == '{');
    lemma_ws_noop(s, 0);
    if entries.len() == 0 {
        assert(s =~= seq!['{', '}']);
        assert(s[1] == '}');
        lemma_ws_noop(s, 1);
        assert(pj_map(s, 0) == Some((2int, Seq::<(Seq<char>, Seq<(Seq<char>, JsonMetric)>)>::empty())));
        lemma_ws_noop(s, 2);
        assert(entries =~= Seq::<(Seq<char>, Seq<(Seq<char>, JsonMetric)>)>::empty());
    } else {
        let members = ser_map_members(entries);
        assert(members.len() >= 1) by {
            assert(ser_name(entries[0].0).len() >= 2);
        }
        assert(s =~= seq!['{'] + (members + seq!['}']));
        assert(s.subrange(0, s.len() as int) =~= s);
        lemma_subrange_split(s, 0, seq!['{'], members + seq!['}']);
        lemma_subrange_split(s, 1, members, seq!['}']);
        assert(s[1] == s.subrange(1, 1 + members.len() as int)[0]);
        assert(s[1] == members[0]);
        assert(members[0] == ser_name(entries[0].0)[0]);
        assert(members[0] == '"');
        lemma_ws_noop(s, 1);
        assert(s[1 + members.len() as int] == s.subrange(1 + members.len() as int, 2 + members.len() as int)[0]);
        assert(s[1 + members.len() as int] == '}');
        lemma_pj_map_members_at(s, 1, entries);
        assert(spec_lit(s, 1 + members.len() as int, seq!['}']) == Some(s.len() as int));
        assert(pj_map(s, 0) == Some((s.len() as int, entries)));
        lemma_ws_noop(s, s.len() as int);
    }
}

impl AdapterJson {
    /// Deserialize raw input against the canonical shape; `Ok` exactly when
    /// the whole input is canonical, and then the identity mapping onto the
    /// benchmark map.
    pub fn parse(input: &str, _settings: Settings) -> (r: Result<JsonBenchmarksMap, AdapterError>)
        ensures
            match r {
                Ok(map) => match spec_parse_json(input@) {
                    Some(entries) => map@ == entries,
                    None => false,
                },
                Err(_) => spec_parse_json(input@) is None,
            },
    {
        parse_json(input)
    }
}

} // verus!
