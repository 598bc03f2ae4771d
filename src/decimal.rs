//! Decimal numbers as they appear in scraped text: integers, fixed-point
//! decimals in millionths, and their rendering back to text.
use vstd::prelude::*;
use crate::text::is_ascii_digit;

verus! {

/// Largest integer part accepted by the fixed-point parser.
pub const MAX_DECIMAL_INT: u64 = 1_000_000_000_000;

pub open spec fn digit_value(c: char) -> nat {
    (c as u32 - '0' as u32) as nat
}

pub open spec fn all_digits(s: Seq<char>) -> bool {
    forall|i: int| 0 <= i < s.len() ==> is_ascii_digit(#[trigger] s[i])
}

/// The value of a run of ASCII digits, most significant first.
pub open spec fn digits_value(s: Seq<char>) -> nat
    decreases s.len(),
{
    if s.len() == 0 {
        0
    } else {
        digits_value(s.drop_last()) * 10 + digit_value(s.last())
    }
}

/// The first six fraction digits, padded with zeros: the millionths.
pub open spec fn six_places(f: Seq<char>) -> Seq<char> {
    Seq::new(6, |p: int| if p < f.len() { f[p] } else { '0' })
}

pub open spec fn first_dot(s: Seq<char>) -> int
    decreases s.len(),
{
    if s.len() == 0 {
        0
    } else if s[0] == '.' {
        0
    } else {
        1 + first_dot(s.drop_first())
    }
}

/// The text without a leading `+` or `-`.
pub open spec fn unsigned_part(s: Seq<char>) -> Seq<char> {
    if s.len() > 0 && (s[0] == '-' || s[0] == '+') {
        s.drop_first()
    } else {
        s
    }
}

pub open spec fn int_part(s: Seq<char>) -> Seq<char> {
    unsigned_part(s).take(first_dot(unsigned_part(s)))
}

pub open spec fn frac_part(s: Seq<char>) -> Seq<char> {
    let b = unsigned_part(s);
    if first_dot(b) < b.len() {
        b.skip(first_dot(b) + 1)
    } else {
        seq![]
    }
}

/// A plain decimal: an optional sign, digits, and at most one point, with at
/// least one digit, and an integer part no larger than `MAX_DECIMAL_INT`.
pub open spec fn is_plain_decimal(s: Seq<char>) -> bool {
    &&& all_digits(int_part(s))
    &&& all_digits(frac_part(s))
    &&& int_part(s).len() + frac_part(s).len() > 0
    &&& digits_value(int_part(s)) <= MAX_DECIMAL_INT
}

/// The value of a plain decimal in millionths; digits past the sixth
/// decimal place are dropped.
pub open spec fn decimal_micros(s: Seq<char>) -> int {
    let m = (digits_value(int_part(s)) * 1_000_000 + digits_value(six_places(frac_part(s)))) as int;
    if s.len() > 0 && s[0] == '-' {
        -m
    } else {
        m
    }
}

proof fn lemma_first_dot_bounds(s: Seq<char>)
    ensures
        0 <= first_dot(s) <= s.len(),
        forall|k: int| 0 <= k < first_dot(s) ==> #[trigger] s[k] != '.',
        first_dot(s) < s.len() ==> s[first_dot(s)] == '.',
    decreases s.len(),
{
    if s.len() > 0 && s[0] != '.' {
        lemma_first_dot_bounds(s.drop_first());
        assert forall|k: int| 0 <= k < first_dot(s) implies #[trigger] s[k] != '.' by {
            if k > 0 {
                assert(s[k] == s.drop_first()[k - 1]);
            }
        }
    }
}

/// Index of the first `.` in `v`, or its length.
fn find_dot(v: &Vec<char>, from: usize) -> (r: usize)
    requires
        from <= v.len(),
    ensures
        from + first_dot(v@.skip(from as int)) == r,
        r <= v.len(),
{
    let mut i = from;
    while i < v.len() && v[i] != '.'
        invariant
            from <= i <= v.len(),
            forall|k: int| from <= k < i ==> v@[k] != '.',
        decreases v.len() - i,
    {
        i += 1;
    }
    proof {
        let s = v@.skip(from as int);
        lemma_first_dot_bounds(s);
        let d = first_dot(s);
        if d < i - from {
            assert(s[d] == v@[from + d]);
        } else if d > i - from {
            assert(s[i - from] == v@[i as int]);
        }
    }
    i
}

/// The value of the digits `v[lo..hi]`, or `None` past `bound`.
fn digits_in_range(v: &Vec<char>, lo: usize, hi: usize, bound: u64) -> (r: Option<u64>)
    requires
        lo <= hi <= v.len(),
        bound <= MAX_DECIMAL_INT,
    ensures
        match r {
            Some(x) => all_digits(v@.subrange(lo as int, hi as int)) && x == digits_value(
                v@.subrange(lo as int, hi as int),
            ) && x <= bound,
            None => !all_digits(v@.subrange(lo as int, hi as int)) || digits_value(
                v@.subrange(lo as int, hi as int),
            ) > bound,
        },
{
    let mut acc: u64 = 0;
    let mut i = lo;
    while i < hi
        invariant
            lo <= i <= hi <= v.len(),
            bound <= MAX_DECIMAL_INT,
            all_digits(v@.subrange(lo as int, i as int)),
            acc == digits_value(v@.subrange(lo as int, i as int)),
            acc <= bound,
        decreases hi - i,
    {
        let c = v[i];
        let ghost pre = v@.subrange(lo as int, i as int);
        let ghost next = v@.subrange(lo as int, i + 1);
        assert(next.drop_last() == pre);
        if !('0' <= c && c <= '9') {
            assert(!is_ascii_digit(next[next.len() - 1]));
            proof {
                lemma_not_all_digits_extends(v@, lo as int, i as int, hi as int);
            }
            return None;
        }
        let d = (c as u32 - '0' as u32) as u64;
        if d > bound || acc > (bound - d) / 10 {
            proof {
                if d <= bound {
                    assert(acc * 10 + d > bound) by (nonlinear_arith)
                        requires
                            acc > (bound - d) / 10,
                            d <= bound,
                    ;
                }
                lemma_value_exceeds_extends(v@, lo as int, i as int, hi as int, bound as int);
            }
            return None;
        }
        assert(acc * 10 + d <= bound) by (nonlinear_arith)
            requires
                acc <= (bound - d) / 10,
                d <= bound,
        ;
        acc = acc * 10 + d;
        i += 1;
    }
    Some(acc)
}

proof fn lemma_not_all_digits_extends(v: Seq<char>, lo: int, i: int, hi: int)
    requires
        0 <= lo <= i < hi <= v.len(),
        !is_ascii_digit(v[i]),
    ensures
        !all_digits(v.subrange(lo, hi)),
{
    assert(v.subrange(lo, hi)[i - lo] == v[i]);
}

proof fn lemma_digits_value_prefix(s: Seq<char>, k: int)
    requires
        0 <= k <= s.len(),
        all_digits(s),
    ensures
        digits_value(s) >= digits_value(s.take(k)),
    decreases s.len() - k,
{
    if k < s.len() {
        lemma_digits_value_prefix(s.drop_last(), k);
        assert(s.drop_last().take(k) == s.take(k));
    } else {
        assert(s.take(k) == s);
    }
}

proof fn lemma_value_exceeds_extends(v: Seq<char>, lo: int, i: int, hi: int, bound: int)
    requires
        0 <= lo <= i < hi <= v.len(),
        is_ascii_digit(v[i]),
        digits_value(v.subrange(lo, i)) * 10 + digit_value(v[i]) > bound,
    ensures
        !all_digits(v.subrange(lo, hi)) || digits_value(v.subrange(lo, hi)) > bound,
{
    let s = v.subrange(lo, hi);
    let p = v.subrange(lo, i + 1);
    assert(p.drop_last() == v.subrange(lo, i));
    assert(s.take(i + 1 - lo) == p);
    if all_digits(s) {
        lemma_digits_value_prefix(s, i + 1 - lo);
    }
}

/// Parses a plain decimal into millionths (see `is_plain_decimal`).
pub fn parse_decimal_micros(v: &Vec<char>) -> (r: Option<i64>)
    ensures
        r is Some <==> is_plain_decimal(v@),
        r is Some ==> r->0 == decimal_micros(v@),
        r is Some ==> r->0 > i64::MIN,
{
    let n = v.len();
    let start: usize = if n > 0 && (v[0] == '-' || v[0] == '+') {
        1
    } else {
        0
    };
    let ghost b = unsigned_part(v@);
    assert(b == v@.skip(start as int));
    let dot = find_dot(v, start);
    let ghost d = first_dot(b);
    proof {
        lemma_first_dot_bounds(b);
    }
    assert(int_part(v@) == v@.subrange(start as int, dot as int));
    let ip = match digits_in_range(v, start, dot, MAX_DECIMAL_INT) {
        Some(x) => x,
        None => return None,
    };
    let fs: usize = if dot < n {
        dot + 1
    } else {
        n
    };
    if dot < n {
        assert(frac_part(v@) == v@.subrange(fs as int, n as int));
    } else {
        assert(frac_part(v@) =~= v@.subrange(fs as int, n as int));
    }
    // Validate the fraction digits.
    let mut k = fs;
    while k < n
        invariant
            fs <= k <= n == v.len(),
            all_digits(v@.subrange(fs as int, k as int)),
            start <= dot <= n,
            fs == if dot < n { dot + 1 } else { n as int },
            frac_part(v@) == v@.subrange(fs as int, n as int),
            int_part(v@) == v@.subrange(start as int, dot as int),
            all_digits(int_part(v@)),
            ip == digits_value(int_part(v@)),
            ip <= MAX_DECIMAL_INT,
        decreases n - k,
    {
        if !('0' <= v[k] && v[k] <= '9') {
            proof {
                lemma_not_all_digits_extends(v@, fs as int, k as int, n as int);
            }
            return None;
        }
        assert(v@.subrange(fs as int, k + 1) == v@.subrange(fs as int, k as int).push(v@[k as int]));
        k += 1;
    }
    if dot - start + (n - fs) == 0 {
        assert(int_part(v@).len() + frac_part(v@).len() == 0);
        return None;
    }
    let ghost f = v@.subrange(fs as int, n as int);
    let mut fr: u64 = 0;
    let mut p: usize = 0;
    while p < 6
        invariant
            p <= 6,
            fs <= n == v.len(),
            f == v@.subrange(fs as int, n as int),
            all_digits(f),
            frac_part(v@) == f,
            int_part(v@) == v@.subrange(start as int, dot as int),
            all_digits(int_part(v@)),
            ip == digits_value(int_part(v@)),
            ip <= MAX_DECIMAL_INT,
            int_part(v@).len() + frac_part(v@).len() > 0,
            start == 1 <==> (n > 0 && (v@[0] == '-' || v@[0] == '+')),
            fr == digits_value(six_places(f).take(p as int)),
            fr < pow10(p as nat),
        decreases 6 - p,
    {
        let c = if p < n - fs {
            v[fs + p]
        } else {
            '0'
        };
        assert(c == six_places(f)[p as int]);
        proof {
            lemma_pow10_small(p as nat);
        }
        assert(six_places(f).take(p + 1).drop_last() == six_places(f).take(p as int));
        fr = fr * 10 + (c as u32 - '0' as u32) as u64;
        p += 1;
        assert(pow10(p as nat) == pow10((p - 1) as nat) * 10);
    }
    assert(six_places(f).take(6) == six_places(f));
    assert(pow10(0) == 1);
    assert(pow10(1) == 10);
    assert(pow10(2) == 100);
    assert(pow10(3) == 1000);
    assert(pow10(4) == 10000);
    assert(pow10(5) == 100000);
    assert(pow10(6) == 1000000);
    let m: i64 = (ip * 1_000_000 + fr) as i64;
    if start == 1 && v[0] == '-' {
        Some(-m)
    } else {
        Some(m)
    }
}

pub open spec fn pow10(k: nat) -> nat
    decreases k,
{
    if k == 0 {
        1
    } else {
        10 * pow10((k - 1) as nat)
    }
}

proof fn lemma_pow10_small(p: nat)
    requires
        p < 6,
    ensures
        pow10(p) * 10 <= 1_000_000,
        pow10(p + 1) == pow10(p) * 10,
{
    assert(pow10(0) == 1);
    assert(pow10(1) == 10);
    assert(pow10(2) == 100);
    assert(pow10(3) == 1000);
    assert(pow10(4) == 10000);
    assert(pow10(5) == 100000);
    assert(pow10(6) == 1000000);
}

/// Parses a non-empty run of ASCII digits as an `i32`.
pub fn parse_i32_digits(v: &Vec<char>) -> (r: Option<i32>)
    ensures
        r is Some <==> (v@.len() > 0 && all_digits(v@) && digits_value(v@) <= i32::MAX),
        r is Some ==> r->0 == digits_value(v@),
{
    if v.len() == 0 {
        return None;
    }
    assert(v@.subrange(0, v.len() as int) == v@);
    match digits_in_range(v, 0, v.len(), 2147483647) {
        Some(x) => Some(x as i32),
        None => None,
    }
}

pub open spec fn digit_char(d: nat) -> char {
    (('0' as u32) + d) as char
}

/// The decimal representation of `n`, without leading zeros.
pub open spec fn decimal_repr(n: nat) -> Seq<char>
    decreases n,
{
    if n < 10 {
        seq![digit_char(n)]
    } else {
        decimal_repr(n / 10).push(digit_char(n % 10))
    }
}

/// Appends the decimal representation of `n`.
pub fn push_decimal(n: u64, out: &mut Vec<char>)
    ensures
        final(out)@ == old(out)@ + decimal_repr(n as nat),
    decreases n,
{
    if n >= 10 {
        push_decimal(n / 10, out);
    }
    let c = char_from_digit((n % 10) as u32);
    out.push(c);
    proof {
        if n < 10 {
            assert(old(out)@.push(c) == old(out)@ + seq![c]);
        }
    }
}

fn char_from_digit(d: u32) -> (c: char)
    requires
        d < 10,
    ensures
        c == digit_char(d as nat),
{
    if d == 0 { '0' } else if d == 1 { '1' } else if d == 2 { '2' } else if d == 3 { '3' } else if d
        == 4 { '4' } else if d == 5 { '5' } else if d == 6 { '6' } else if d == 7 { '7' } else if d
        == 8 { '8' } else { '9' }
}

/// A value in millionths written as a percentage with one decimal place,
/// rounded half up: `973_456` becomes `97.3%`.
pub open spec fn percent_text(micros: nat) -> Seq<char> {
    let tenths = (micros + 500) / 1000;
    decimal_repr(tenths / 10).push('.').push(digit_char(tenths % 10)).push('%')
}

pub fn push_percent(micros: u64, out: &mut Vec<char>)
    requires
        micros <= 1_000_000_000,
    ensures
        final(out)@ == old(out)@ + percent_text(micros as nat),
{
    let tenths = (micros + 500) / 1000;
    push_decimal(tenths / 10, out);
    out.push('.');
    out.push(char_from_digit((tenths % 10) as u32));
    out.push('%');
}

} // verus!
