//! Character-level helpers shared by the adapters: decimal digits, their
//! numeric value, and rendering a number back to decimal digits.

use vstd::prelude::*;

verus! {

/// `c` is an ASCII decimal digit.
pub open spec fn is_digit_char(c: char) -> bool {
    '0' <= c && c <= '9'
}

/// Numeric value of a digit character.
pub open spec fn digit_val(c: char) -> int {
    c as u32 - 48
}

/// Value of a big-endian sequence of decimal digits.
pub open spec fn digits_value(s: Seq<char>) -> int
    decreases s.len(),
{
    if s.len() == 0 {
        0
    } else {
        digits_value(s.drop_last()) * 10 + digit_val(s.last())
    }
}

/// All characters of the sequence are decimal digits.
pub open spec fn all_digits(s: Seq<char>) -> bool {
    forall|i: int| 0 <= i < s.len() ==> is_digit_char(#[trigger] s[i])
}

/// A digit sequence has a non-negative value.
pub proof fn lemma_digits_value_nonneg(s: Seq<char>)
    requires
        all_digits(s),
    ensures
        digits_value(s) >= 0,
    decreases s.len(),
{
    if s.len() > 0 {
        assert(is_digit_char(s[s.len() - 1]));
        lemma_digits_value_nonneg(s.drop_last());
    }
}

/// Extending a digit sequence on the right cannot shrink its value.
pub proof fn lemma_digits_value_prefix(s: Seq<char>, i: int)
    requires
        all_digits(s),
        0 <= i <= s.len(),
    ensures
        digits_value(s.take(i)) <= digits_value(s),
    decreases s.len() - i,
{
    assert forall|j: int| 0 <= j < i implies is_digit_char(#[trigger] s.take(i)[j]) by {
        assert(s.take(i)[j] == s[j]);
    }
    if i < s.len() {
        lemma_digits_value_prefix(s, i + 1);
        assert(s.take(i + 1).drop_last() =~= s.take(i));
        assert(is_digit_char(s[i]));
        lemma_digits_value_nonneg(s.take(i));
    } else {
        assert(s.take(i) =~= s);
    }
}

/// The digit character for a value below ten.
pub open spec fn digit_char(d: int) -> char {
    if d == 0 {
        '0'
    } else if d == 1 {
        '1'
    } else if d == 2 {
        '2'
    } else if d == 3 {
        '3'
    } else if d == 4 {
        '4'
    } else if d == 5 {
        '5'
    } else if d == 6 {
        '6'
    } else if d == 7 {
        '7'
    } else if d == 8 {
        '8'
    } else {
        '9'
    }
}

/// A digit character's code point is 48 plus its value.
pub proof fn lemma_digit_char_code(d: int)
    requires
        0 <= d < 10,
    ensures
        digit_char(d) as u32 == 48 + d,
        digit_val(digit_char(d)) == d,
        is_digit_char(digit_char(d)),
{
    if d == 0 {
        assert(digit_char(d) as u32 == 48);
    } else if d == 1 {
        assert(digit_char(d) as u32 == 49);
    } else if d == 2 {
        assert(digit_char(d) as u32 == 50);
    } else if d == 3 {
        assert(digit_char(d) as u32 == 51);
    } else if d == 4 {
        assert(digit_char(d) as u32 == 52);
    } else if d == 5 {
        assert(digit_char(d) as u32 == 53);
    } else if d == 6 {
        assert(digit_char(d) as u32 == 54);
    } else if d == 7 {
        assert(digit_char(d) as u32 == 55);
    } else if d == 8 {
        assert(digit_char(d) as u32 == 56);
    } else {
        assert(digit_char(d) as u32 == 57);
    }
}

/// Shortest decimal rendering of a non-negative number.
pub open spec fn dec_digits(n: int) -> Seq<char>
    decreases n,
{
    if n < 10 {
        seq![digit_char(n)]
    } else {
        dec_digits(n / 10).push(digit_char(n % 10))
    }
}

/// Every character of a decimal rendering is a digit.
pub proof fn lemma_dec_digits_are_digits(n: int)
    requires
        n >= 0,
    ensures
        all_digits(dec_digits(n)),
        dec_digits(n).len() >= 1,
    decreases n,
{
    if n < 10 {
        assert(is_digit_char(dec_digits(n)[0]));
    } else {
        lemma_dec_digits_are_digits(n / 10);
        let s = dec_digits(n);
        assert forall|i: int| 0 <= i < s.len() implies is_digit_char(#[trigger] s[i]) by {
            if i < s.len() - 1 {
                assert(s[i] == dec_digits(n / 10)[i]);
            } else {
                assert(s[i] == digit_char(n % 10));
            }
        }
    }
}

/// Reading a decimal rendering back gives the number: rendering and digit
/// value are mutually inverse.
pub proof fn lemma_dec_digits_value(n: int)
    requires
        n >= 0,
    ensures
        digits_value(dec_digits(n)) == n,
    decreases n,
{
    if n < 10 {
        lemma_digit_char_code(n);
        let s = dec_digits(n);
        assert(s =~= seq![digit_char(n)]);
        assert(s.drop_last() =~= Seq::<char>::empty());
        assert(digits_value(s.drop_last()) == 0);
        assert(s.last() == digit_char(n));
        assert(digits_value(s) == digits_value(s.drop_last()) * 10 + digit_val(s.last()));
    } else {
        lemma_dec_digits_value(n / 10);
        lemma_digit_char_code(n % 10);
        let s = dec_digits(n);
        assert(s =~= dec_digits(n / 10).push(digit_char(n % 10)));
        assert(s.drop_last() =~= dec_digits(n / 10));
        assert(s.last() == digit_char(n % 10));
        assert(digits_value(s) == digits_value(s.drop_last()) * 10 + digit_val(s.last()));
        assert(digits_value(s) == (n / 10) * 10 + (n % 10));
    }
}

/// What a found position means: the first occurrence of `c` at or after
/// `i`, with nothing equal to `c` before it.
pub proof fn lemma_find_char_before(s: Seq<char>, i: int, c: char)
    requires
        0 <= i <= s.len(),
        spec_find_char(s, i, c) is Some,
    ensures
        ({
            let j = spec_find_char(s, i, c)->Some_0;
            &&& i <= j < s.len()
            &&& s[j] == c
            &&& forall|k: int| i <= k < j ==> s[k] != c
        }),
    decreases s.len() - i,
{
    if i < s.len() && s[i] != c {
        lemma_find_char_before(s, i + 1, c);
    }
}

/// The characters of `s`, in order.
pub fn str_to_chars(s: &str) -> (r: Vec<char>)
    ensures
        r@ == s@,
{
    let n = s.unicode_len();
    let mut r: Vec<char> = Vec::new();
    let mut i: usize = 0;
    while i < n
        invariant
            n == s@.len(),
            i <= n,
            r@ =~= s@.take(i as int),
        decreases n - i,
    {
        r.push(s.get_char(i));
        assert(r@ =~= s@.take(i as int + 1));
        i = i + 1;
    }
    assert(s@.take(n as int) =~= s@);
    r
}

/// The decimal digits of `n`, most significant first.
pub fn u64_to_dec_chars(n: u64) -> (r: Vec<char>)
    ensures
        r@ == dec_digits(n as int),
{
    let mut rev: Vec<char> = Vec::new();
    let mut m: u64 = n;
    loop
        invariant_except_break
            dec_digits(n as int) =~= dec_digits(m as int) + rev@.reverse(),
        ensures
            dec_digits(n as int) =~= rev@.reverse(),
        decreases m,
    {
        let d: u8 = (m % 10) as u8;
        let c: char = (d + 48u8) as char;
        proof {
            lemma_digit_char_code(m as int % 10);
            assert(c as u32 == 48 + m as int % 10);
            assert(c == digit_char(m as int % 10));
        }
        if m < 10 {
            let ghost prev_rev = rev@;
            rev.push(c);
            assert(dec_digits(m as int) =~= seq![c]);
            assert(rev@.reverse() =~= seq![c] + prev_rev.reverse());
            assert(dec_digits(n as int) =~= rev@.reverse());
            break ;
        }
        let ghost prev = m as int;
        let ghost prev_rev = rev@;
        rev.push(c);
        m = m / 10;
        proof {
            assert(rev@.reverse() =~= seq![c] + prev_rev.reverse());
            assert(dec_digits(prev) =~= dec_digits(prev / 10).push(digit_char(prev % 10)));
            assert(dec_digits(prev) + prev_rev.reverse() =~= dec_digits(m as int)
                + rev@.reverse());
        }
    }
    let mut r: Vec<char> = Vec::new();
    let mut i: usize = rev.len();
    while i > 0
        invariant
            i <= rev@.len(),
            r@ =~= rev@.reverse().take(rev@.len() - i),
        decreases i,
    {
        i = i - 1;
        r.push(rev[i]);
        assert(r@ =~= rev@.reverse().take(rev@.len() - i));
    }
    assert(r@ =~= rev@.reverse());
    r
}

/// First position at or after `i` that does not hold a digit.
pub open spec fn spec_skip_digits(s: Seq<char>, i: int) -> int
    decreases s.len() - i,
    when 0 <= i <= s.len()
{
    if i < s.len() && is_digit_char(s[i]) {
        spec_skip_digits(s, i + 1)
    } else {
        i
    }
}

/// One or more digits: the position after them, or nothing.
pub open spec fn spec_digits1(s: Seq<char>, i: int) -> Option<int> {
    if 0 <= i && i < s.len() && is_digit_char(s[i]) {
        Some(spec_skip_digits(s, i))
    } else {
        None
    }
}


/// The literal `lit` at position `i`: the position after it, or nothing.
pub open spec fn spec_lit(s: Seq<char>, i: int, lit: Seq<char>) -> Option<int> {
    if 0 <= i && i + lit.len() <= s.len() && s.subrange(i, i + lit.len()) == lit {
        Some(i + lit.len())
    } else {
        None
    }
}


/// First position at or after `i` holding `c`, if any.
pub open spec fn spec_find_char(s: Seq<char>, i: int, c: char) -> Option<int>
    decreases s.len() - i,
    when 0 <= i <= s.len()
{
    if i >= s.len() {
        None
    } else if s[i] == c {
        Some(i)
    } else {
        spec_find_char(s, i + 1, c)
    }
}


pub fn skip_digits(s: &Vec<char>, i: usize) -> (r: usize)
    requires
        i <= s@.len(),
    ensures
        r == spec_skip_digits(s@, i as int),
        i <= r <= s@.len(),
        forall|k: int| i <= k < r ==> is_digit_char(#[trigger] s@[k]),
        i < s@.len() && is_digit_char(s@[i as int]) ==> r > i,
{
    let mut j = i;
    while j < s.len() && s[j] >= '0' && s[j] <= '9'
        invariant
            i <= j <= s@.len(),
            spec_skip_digits(s@, i as int) == spec_skip_digits(s@, j as int),
            forall|k: int| i <= k < j ==> is_digit_char(#[trigger] s@[k]),
        decreases s@.len() - j,
    {
        j = j + 1;
    }
    j
}


pub fn digits1(s: &Vec<char>, i: usize) -> (r: Option<usize>)
    requires
        i <= s@.len(),
    ensures
        match r {
            Some(j) => spec_digits1(s@, i as int) == Some(j as int) && i < j <= s@.len()
                && (forall|k: int| i <= k < j ==> is_digit_char(#[trigger] s@[k])),
            None => spec_digits1(s@, i as int) is None,
        },
{
    if i < s.len() && s[i] >= '0' && s[i] <= '9' {
        let j = skip_digits(s, i);
        Some(j)
    } else {
        None
    }
}


pub fn eat_lit(s: &Vec<char>, i: usize, lit: &Vec<char>) -> (r: Option<usize>)
    requires
        i <= s@.len(),
    ensures
        match r {
            Some(j) => spec_lit(s@, i as int, lit@) == Some(j as int) && i <= j <= s@.len(),
            None => spec_lit(s@, i as int, lit@) is None,
        },
{
    if lit.len() > s.len() - i {
        return None;
    }
    let mut k: usize = 0;
    while k < lit.len()
        invariant
            0 <= k <= lit@.len(),
            i + lit@.len() <= s@.len(),
            s@.len() <= usize::MAX,
            forall|t: int| 0 <= t < k ==> s@[i + t] == lit@[t],
        decreases lit@.len() - k,
    {
        if s[i + k] != lit[k] {
            proof {
                assert(s@.subrange(i as int, i as int + lit@.len())[k as int] != lit@[k as int]);
            }
            return None;
        }
        k = k + 1;
    }
    proof {
        assert(s@.subrange(i as int, i as int + lit@.len()) =~= lit@);
    }
    Some(i + lit.len())
}


pub fn find_char(s: &Vec<char>, i: usize, c: char) -> (r: Option<usize>)
    requires
        i <= s@.len(),
    ensures
        match r {
            Some(j) => spec_find_char(s@, i as int, c) == Some(j as int) && i <= j < s@.len(),
            None => spec_find_char(s@, i as int, c) is None,
        },
{
    let mut j = i;
    while j < s.len() && s[j] != c
        invariant
            i <= j <= s@.len(),
            spec_find_char(s@, i as int, c) == spec_find_char(s@, j as int, c),
        decreases s@.len() - j,
    {
        j = j + 1;
    }
    if j < s.len() {
        Some(j)
    } else {
        None
    }
}


/// The characters of `s` from `from` to `to`.
pub fn copy_range(s: &Vec<char>, from: usize, to: usize) -> (r: Vec<char>)
    requires
        from <= to <= s@.len(),
    ensures
        r@ == s@.subrange(from as int, to as int),
{
    let mut r: Vec<char> = Vec::new();
    let mut k = from;
    while k < to
        invariant
            from <= k <= to <= s@.len(),
            r@ =~= s@.subrange(from as int, k as int),
        decreases to - k,
    {
        r.push(s[k]);
        assert(r@ =~= s@.subrange(from as int, k as int + 1));
        k = k + 1;
    }
    r
}


} // verus!
