//! Decoding of the numeric command-line flags. A value that does not decode
//! is not rejected: it falls back to zero.

use vstd::prelude::*;
use crate::decimal::{decimal_of, lemma_pow10_positive, parse_decimal, pow10, Decimal};
use crate::text::{all_digits, digit_value, digits_value, is_digit, trim, trim_bounds};

verus! {

/// Threshold below which two samples count as near, when the flag is absent.
pub const DEFAULT_DISTANCE: u32 = 1000;

/// Number of scans asked of the analysis step, when the flag is absent.
pub const DEFAULT_NUM_SCANS: u32 = 100000;

/// Thread count, when the flag is absent.
pub const DEFAULT_NUM_THREADS: u32 = 12;

/// Thread counts are accepted strictly between zero and this bound.
pub const THREAD_LIMIT: u32 = 64;

/// The digits of an unsigned literal: what follows an optional `+`.
pub open spec fn unsigned_digits(t: Seq<char>) -> Seq<char> {
    if t.len() > 0 && t[0] == '+' {
        t.drop_first()
    } else {
        t
    }
}

/// `t` is an unsigned decimal literal whose value fits in `u32`.
pub open spec fn is_u32_literal(t: Seq<char>) -> bool {
    let d = unsigned_digits(t);
    d.len() > 0 && all_digits(d) && digits_value(d) <= u32::MAX
}

/// What `s` denotes as a `u32`, once its surrounding whitespace is removed.
pub open spec fn u32_of(s: Seq<char>) -> Option<u32> {
    let t = trim(s);
    if is_u32_literal(t) {
        Some(digits_value(unsigned_digits(t)) as u32)
    } else {
        None
    }
}

/// A count flag: absent gives `default`, a value that does not decode gives 0.
pub open spec fn count_of(flag: Option<Seq<char>>, default: u32) -> u32 {
    match flag {
        None => default,
        Some(s) => match u32_of(s) {
            Some(n) => n,
            None => 0,
        },
    }
}

/// The thread flag: absent gives the default; a value that does not decode,
/// or lies outside the open range from 0 to [`THREAD_LIMIT`], gives 0.
pub open spec fn threads_of(flag: Option<Seq<char>>) -> u32 {
    match flag {
        None => DEFAULT_NUM_THREADS,
        Some(s) => match u32_of(s) {
            Some(n) => if 0 < n && n < THREAD_LIMIT {
                n
            } else {
                0
            },
            None => 0,
        },
    }
}

pub open spec fn flag_view(flag: &Option<String>) -> Option<Seq<char>> {
    match flag {
        None => None,
        Some(s) => Some(s@),
    }
}

/// Parses `s`, surrounding whitespace aside, as an unsigned decimal `u32`.
pub fn parse_u32(s: &str) -> (r: Option<u32>)
    ensures
        r == u32_of(s@),
{
    let (a, b) = trim_bounds(s);
    let ghost t = s@.subrange(a as int, b as int);
    let mut i: usize = a;
    if i < b && s.get_char(i) == '+' {
        i = i + 1;
    }
    let start = i;
    assert(unsigned_digits(t) =~= s@.subrange(start as int, b as int));
    if start == b {
        return None;
    }
    let mut v: u64 = 0;
    let mut over = false;
    assert(s@.subrange(start as int, start as int) =~= Seq::<char>::empty());
    while i < b
        invariant
            b <= s@.len(),
            start <= i <= b,
            unsigned_digits(trim(s@)) == s@.subrange(start as int, b as int),
            all_digits(s@.subrange(start as int, i as int)),
            !over ==> v == digits_value(s@.subrange(start as int, i as int)),
            !over ==> v <= u32::MAX,
            over ==> digits_value(s@.subrange(start as int, i as int)) > u32::MAX,
        decreases b - i,
    {
        let c = s.get_char(i);
        let ghost p = s@.subrange(start as int, i as int);
        assert(s@.subrange(start as int, i + 1) =~= p.push(c));
        assert(s@.subrange(start as int, i + 1).drop_last() =~= p);
        if !('0' <= c && c <= '9') {
            assert(!is_digit(s@.subrange(start as int, b as int)[i - start]));
            return None;
        }
        if !over {
            let d = (c as u32 - '0' as u32) as u64;
            assert(d == digit_value(c));
            v = v * 10 + d;
            if v > u32::MAX as u64 {
                over = true;
            }
        }
        i = i + 1;
    }
    if over {
        None
    } else {
        Some(v as u32)
    }
}

/// Decodes a count flag: absent gives `default`, a value that does not
/// decode gives 0.
pub fn decode_count(flag: &Option<String>, default: u32) -> (r: u32)
    ensures
        r == count_of(flag_view(flag), default),
{
    match flag {
        None => default,
        Some(s) => match parse_u32(s.as_str()) {
            Some(n) => n,
            None => 0,
        },
    }
}

/// Decodes the thread flag: absent gives [`DEFAULT_NUM_THREADS`]; a value
/// that does not decode, or is not strictly between 0 and [`THREAD_LIMIT`],
/// gives 0.
pub fn decode_threads(flag: &Option<String>) -> (r: u32)
    ensures
        r == threads_of(flag_view(flag)),
        0 < r < THREAD_LIMIT || r == 0,
{
    match flag {
        None => DEFAULT_NUM_THREADS,
        Some(s) => match parse_u32(s.as_str()) {
            Some(n) => if 0 < n && n < THREAD_LIMIT {
                n
            } else {
                0
            },
            None => 0,
        },
    }
}

/// The distance fraction when the flag is absent: one tenth.
pub open spec fn default_fraction() -> Decimal {
    Decimal { negative: false, units: 1, scale: 1 }
}

/// A value above one is read as a percentage and divided by 100; any other
/// value is kept.
pub open spec fn as_fraction(x: Decimal) -> Decimal {
    if x.spec_exceeds_one() {
        Decimal { scale: (x.scale + 2) as u32, ..x }
    } else {
        x
    }
}

/// The distance-fraction flag: absent gives one tenth, a value that does not
/// decode gives zero, any other goes through [`as_fraction`].
pub open spec fn fraction_of(flag: Option<Seq<char>>) -> Decimal {
    match flag {
        None => default_fraction(),
        Some(s) => match decimal_of(s) {
            Some(x) => as_fraction(x),
            None => Decimal { negative: false, units: 0, scale: 0 },
        },
    }
}

/// Reads a value above one as a percentage: divides it by 100.
pub fn normalize_fraction(x: Decimal) -> (r: Decimal)
    requires
        x.wf(),
        x.scale <= crate::decimal::MAX_FRACTION_DIGITS,
    ensures
        r == as_fraction(x),
        r.wf(),
{
    if x.exceeds_one() {
        Decimal { scale: x.scale + 2, ..x }
    } else {
        x
    }
}

/// Decodes the distance-fraction flag: absent gives one tenth, a value that
/// does not decode gives zero, and a value above one is divided by 100.
pub fn decode_fraction(flag: &Option<String>) -> (r: Decimal)
    ensures
        r == fraction_of(flag_view(flag)),
        r.wf(),
{
    match flag {
        None => Decimal { negative: false, units: 1, scale: 1 },
        Some(s) => match parse_decimal(s.as_str()) {
            Some(x) => normalize_fraction(x),
            None => Decimal::zero(),
        },
    }
}

/// The percentage rule in terms of values: a decoded value `x` above one is
/// stored as `x / 100`, and any other is stored unchanged.
pub proof fn lemma_fraction_value(x: Decimal)
    requires
        x.wf(),
    ensures
        x.numerator() > x.denominator() ==> as_fraction(x).numerator() * 100 * x.denominator()
            == x.numerator() * as_fraction(x).denominator(),
        x.numerator() <= x.denominator() ==> as_fraction(x) == x,
{
    lemma_pow10_positive(x.scale as nat);
    if x.numerator() > x.denominator() {
        let y = as_fraction(x);
        let d = x.denominator();
        assert(x.spec_exceeds_one());
        assert(pow10(x.scale as nat + 1) == 10 * pow10(x.scale as nat));
        assert(pow10(x.scale as nat + 2) == 10 * pow10(x.scale as nat + 1));
        assert(y.denominator() == 100 * d);
        assert(y.numerator() * 100 * d == x.numerator() * (100 * d)) by (nonlinear_arith)
            requires
                y.numerator() == x.numerator(),
        ;
    }
}

/// A numeric flag whose text does not decode falls back to zero: a count, the
/// thread count (also when it lies outside its range), and the fraction.
pub proof fn lemma_unparsable_flags_fall_back(s: Seq<char>, default: u32)
    ensures
        u32_of(s) is None ==> count_of(Some(s), default) == 0,
        u32_of(s) is None ==> threads_of(Some(s)) == 0,
        (u32_of(s) matches Some(n) && (n == 0 || n >= THREAD_LIMIT)) ==> threads_of(Some(s)) == 0,
        decimal_of(s) is None ==> fraction_of(Some(s)).numerator() == 0,
{
}

} // verus!
