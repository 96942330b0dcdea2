//! Exact decimal fractions, as written on the command line.

use vstd::prelude::*;
use crate::text::{
    all_digits, append_nat, append_padded, digit_value, digits_value, is_digit, nat_text,
    padded_text, trim, trim_bounds,
};

verus! {

/// A decimal holds at most this many places after the point.
pub const MAX_FRACTION_DIGITS: u32 = 19;

/// The value `(-1)^negative * units / 10^scale`.
#[derive(Clone, Copy, Debug, PartialEq, Eq, Structural)]
pub struct Decimal {
    pub negative: bool,
    pub units: u64,
    pub scale: u32,
}

pub open spec fn pow10(k: nat) -> nat
    decreases k,
{
    if k == 0 {
        1
    } else {
        10 * pow10((k - 1) as nat)
    }
}

pub proof fn lemma_pow10_positive(k: nat)
    ensures
        pow10(k) >= 1,
    decreases k,
{
    if k > 0 {
        lemma_pow10_positive((k - 1) as nat);
    }
}

pub proof fn lemma_pow10_mono(a: nat, b: nat)
    requires
        a <= b,
    ensures
        1 <= pow10(a) <= pow10(b),
    decreases b,
{
    lemma_pow10_positive(a);
    if b > a {
        lemma_pow10_mono(a, (b - 1) as nat);
    }
}

proof fn lemma_pow10_21()
    ensures
        pow10(21) == 1_000_000_000_000_000_000_000,
{
    reveal_with_fuel(pow10, 22);
}

/// `10^k`.
pub fn pow10_exec(k: u32) -> (r: u128)
    requires
        k <= MAX_FRACTION_DIGITS + 2,
    ensures
        r == pow10(k as nat),
        r >= 1,
{
    let mut p: u128 = 1;
    let mut i: u32 = 0;
    proof {
        lemma_pow10_21();
    }
    while i < k
        invariant
            k <= MAX_FRACTION_DIGITS + 2,
            i <= k,
            p == pow10(i as nat),
            pow10(21) == 1_000_000_000_000_000_000_000,
        decreases k - i,
    {
        proof {
            lemma_pow10_mono((i + 1) as nat, 21);
        }
        p = p * 10;
        i = i + 1;
    }
    proof {
        lemma_pow10_positive(k as nat);
    }
    p
}

impl Decimal {
    /// Scales stay small enough for `10^scale` to be computed exactly.
    pub open spec fn wf(self) -> bool {
        self.scale <= MAX_FRACTION_DIGITS + 2
    }

    /// Numerator of the value over [`Decimal::denominator`].
    pub open spec fn numerator(self) -> int {
        if self.negative {
            -(self.units as int)
        } else {
            self.units as int
        }
    }

    pub open spec fn denominator(self) -> nat {
        pow10(self.scale as nat)
    }

    /// The value is greater than one.
    pub open spec fn spec_exceeds_one(self) -> bool {
        !self.negative && self.units > self.denominator()
    }

    /// The value is greater than zero.
    pub open spec fn spec_is_positive(self) -> bool {
        !self.negative && self.units > 0
    }

    /// Zero.
    pub fn zero() -> (r: Decimal)
        ensures
            r.wf(),
            r.numerator() == 0,
            r == (Decimal { negative: false, units: 0, scale: 0 }),
    {
        Decimal { negative: false, units: 0, scale: 0 }
    }

    /// `10^scale`.
    pub fn denominator_exec(&self) -> (r: u128)
        requires
            self.wf(),
        ensures
            r == self.denominator(),
            r >= 1,
    {
        pow10_exec(self.scale)
    }

    /// Whether the value is greater than one.
    pub fn exceeds_one(&self) -> (r: bool)
        requires
            self.wf(),
        ensures
            r == self.spec_exceeds_one(),
    {
        !self.negative && (self.units as u128) > self.denominator_exec()
    }

    /// Whether the value is greater than zero.
    pub fn is_positive(&self) -> (r: bool)
        ensures
            r == self.spec_is_positive(),
    {
        !self.negative && self.units > 0
    }
}

/// `t` without an optional leading sign.
pub open spec fn unsigned_part(t: Seq<char>) -> Seq<char> {
    if t.len() > 0 && (t[0] == '+' || t[0] == '-') {
        t.drop_first()
    } else {
        t
    }
}

/// The index of the first `.` of `s`, or its length if it has none.
pub open spec fn first_dot(s: Seq<char>) -> nat
    decreases s.len(),
{
    if s.len() == 0 || s[0] == '.' {
        0
    } else {
        1 + first_dot(s.drop_first())
    }
}

/// The digits before the decimal point.
pub open spec fn whole_digits(b: Seq<char>) -> Seq<char> {
    b.take(first_dot(b) as int)
}

/// The digits after the decimal point.
pub open spec fn fraction_digits(b: Seq<char>) -> Seq<char> {
    if first_dot(b) < b.len() {
        b.skip(first_dot(b) as int + 1)
    } else {
        seq![]
    }
}

/// The index of the first exponent mark (`e` or `E`) of `s`, or its length
/// if it has none.
pub open spec fn first_exp(s: Seq<char>) -> nat
    decreases s.len(),
{
    if s.len() == 0 || s[0] == 'e' || s[0] == 'E' {
        0
    } else {
        1 + first_exp(s.drop_first())
    }
}

/// The part of an unsigned literal before its exponent mark.
pub open spec fn mantissa_part(b: Seq<char>) -> Seq<char> {
    b.take(first_exp(b) as int)
}

pub open spec fn has_exponent(b: Seq<char>) -> bool {
    first_exp(b) < b.len()
}

/// The part of an unsigned literal after its exponent mark.
pub open spec fn exponent_part(b: Seq<char>) -> Seq<char> {
    b.skip(first_exp(b) as int + 1)
}

/// All digits of the mantissa, before and after the point, in order.
pub open spec fn mantissa_digits(b: Seq<char>) -> Seq<char> {
    whole_digits(mantissa_part(b)) + fraction_digits(mantissa_part(b))
}

/// The number written after the exponent mark, with its sign; 0 without one.
pub open spec fn exponent_value(b: Seq<char>) -> int {
    if has_exponent(b) {
        let e = exponent_part(b);
        let v = digits_value(unsigned_part(e)) as int;
        if e.len() > 0 && e[0] == '-' {
            -v
        } else {
            v
        }
    } else {
        0
    }
}

/// The power of ten that multiplies [`mantissa_digits`] read as a whole number.
pub open spec fn literal_exponent(b: Seq<char>) -> int {
    exponent_value(b) - fraction_digits(mantissa_part(b)).len()
}

/// `t` is a decimal literal `[+-]digits[.digits][(e|E)[+-]digits]`, with at
/// least one digit in the mantissa and one in the exponent, if there is one.
pub open spec fn is_decimal_literal(t: Seq<char>) -> bool {
    let b = unsigned_part(t);
    let m = mantissa_part(b);
    &&& all_digits(whole_digits(m))
    &&& all_digits(fraction_digits(m))
    &&& mantissa_digits(b).len() > 0
    &&& has_exponent(b) ==> unsigned_part(exponent_part(b)).len() > 0 && all_digits(
        unsigned_part(exponent_part(b)),
    )
}

/// The length of `d` without its trailing zeros.
pub open spec fn significant_len(d: Seq<char>) -> nat
    decreases d.len(),
{
    if d.len() > 0 && d.last() == '0' {
        significant_len(d.drop_last())
    } else {
        d.len()
    }
}

/// The decimal of the value `(-1)^negative * c * 10^k`, where `c` has no
/// trailing zero: a whole number gets scale 0, any other the fewest places.
/// `None` where the value cannot be held: units above `u64::MAX`, or more
/// than [`MAX_FRACTION_DIGITS`] places.
pub open spec fn scaled(negative: bool, c: nat, k: int) -> Option<Decimal> {
    if c == 0 {
        Some(Decimal { negative, units: 0, scale: 0 })
    } else if k >= 0 {
        if c * pow10(k as nat) <= u64::MAX {
            Some(Decimal { negative, units: (c * pow10(k as nat)) as u64, scale: 0 })
        } else {
            None
        }
    } else if -k <= MAX_FRACTION_DIGITS && c <= u64::MAX {
        Some(Decimal { negative, units: c as u64, scale: (-k) as u32 })
    } else {
        None
    }
}

/// What `s` denotes as a decimal, once its surrounding whitespace is removed:
/// the literal's value, with trailing zeros of its digits moved into the
/// exponent. `None` where `s` is no decimal literal (this includes `inf` and
/// `NaN`, which have no decimal value) or its value cannot be held.
pub open spec fn decimal_of(s: Seq<char>) -> Option<Decimal> {
    let t = trim(s);
    let b = unsigned_part(t);
    let d = mantissa_digits(b);
    let n = significant_len(d);
    if is_decimal_literal(t) {
        scaled(t[0] == '-', digits_value(d.take(n as int)), literal_exponent(b) + (d.len() - n))
    } else {
        None
    }
}

proof fn lemma_pow10_add(a: nat, b: nat)
    ensures
        pow10(a + b) == pow10(a) * pow10(b),
    decreases b,
{
    if b == 0 {
        assert(a + b == a);
        assert(pow10(0) == 1);
    } else {
        let b1 = (b - 1) as nat;
        lemma_pow10_add(a, b1);
        assert(a + b == (a + b1) + 1);
        assert(pow10(a + b) == 10 * pow10(a + b1));
        assert(pow10(b) == 10 * pow10(b1));
        assert(pow10(a) * (10 * pow10(b1)) == 10 * (pow10(a) * pow10(b1))) by (nonlinear_arith);
    }
}

proof fn lemma_significant_digits(d: Seq<char>)
    ensures
        significant_len(d) <= d.len(),
        digits_value(d) == digits_value(d.take(significant_len(d) as int)) * pow10(
            (d.len() - significant_len(d)) as nat,
        ),
        significant_len(d) > 0 ==> d[significant_len(d) - 1] != '0',
    decreases d.len(),
{
    if d.len() > 0 && d.last() == '0' {
        let p = d.drop_last();
        lemma_significant_digits(p);
        let n = significant_len(p);
        assert(significant_len(d) == n);
        assert(p.take(n as int) =~= d.take(n as int));
        assert(digit_value('0') == 0);
        let c = digits_value(d.take(n as int));
        let z = (p.len() - n) as nat;
        assert((d.len() - n) as nat == z + 1);
        assert(pow10(z + 1) == 10 * pow10(z));
        assert(digits_value(d) == digits_value(p) * 10);
        assert(digits_value(p) == c * pow10(z));
        assert(c * pow10(z) * 10 == c * (10 * pow10(z))) by (nonlinear_arith);
        assert(digits_value(d) == c * pow10(z + 1));
        if n > 0 {
            assert(d[n - 1] == p[n - 1]);
        }
    } else {
        assert(d.take(d.len() as int) =~= d);
        assert(pow10(0) == 1);
        assert(digits_value(d) == digits_value(d) * 1);
    }
}

/// The decimal that [`decimal_of`] gives has the literal's value:
/// `(-1)^sign * mantissa_digits * 10^literal_exponent`, where a negative
/// power is moved to the other side.
pub proof fn lemma_decimal_of_value(s: Seq<char>)
    requires
        decimal_of(s) is Some,
    ensures
        ({
            let t = trim(s);
            let b = unsigned_part(t);
            let d = decimal_of(s)->Some_0;
            let m = digits_value(mantissa_digits(b)) as int;
            let v = if t[0] == '-' {
                -m
            } else {
                m
            };
            let e = literal_exponent(b);
            let up: nat = if e >= 0 {
                e as nat
            } else {
                0
            };
            let down: nat = if e < 0 {
                (-e) as nat
            } else {
                0
            };
            d.numerator() * pow10(down) == v * pow10(up) * d.denominator()
        }),
{
    let t = trim(s);
    let b = unsigned_part(t);
    let dg = mantissa_digits(b);
    let n = significant_len(dg);
    let z = (dg.len() - n) as nat;
    let c = digits_value(dg.take(n as int));
    let d = decimal_of(s)->Some_0;
    let e = literal_exponent(b);
    let k = e + z;
    lemma_significant_digits(dg);
    let m = digits_value(dg) as int;
    assert(m == c * pow10(z));
    let up: nat = if e >= 0 {
        e as nat
    } else {
        0
    };
    let down: nat = if e < 0 {
        (-e) as nat
    } else {
        0
    };
    let sg: int = if t[0] == '-' {
        -1
    } else {
        1
    };
    if c == 0 {
        assert(d.numerator() == sg * d.units);
        assert(m == 0) by (nonlinear_arith)
            requires
                m == c * pow10(z),
                c == 0,
        ;
        assert(sg * m * pow10(up) * d.denominator() == 0) by (nonlinear_arith)
            requires
                m == 0,
        ;
    } else if k >= 0 {
        // d = c * 10^k / 1, and k + down == z + up
        assert(d.numerator() == sg * d.units);
        assert(d.denominator() == 1);
        lemma_pow10_add(k as nat, down);
        lemma_pow10_add(z, up);
        assert(k as nat + down == z + up);
        assert(d.units == c * pow10(k as nat));
        assert(sg * (c * pow10(k as nat)) * pow10(down) == sg * (c * pow10(z)) * pow10(up) * 1)
            by (nonlinear_arith)
            requires
                pow10(k as nat) * pow10(down) == pow10(z) * pow10(up),
        ;
    } else {
        // d = c / 10^(-k), and down == z + (-k), up == 0
        assert(d.numerator() == sg * d.units);
        assert(d.denominator() == pow10((-k) as nat));
        lemma_pow10_add(z, (-k) as nat);
        assert(down == z + (-k) as nat);
        assert(up == 0);
        assert(sg * c * pow10(down) == sg * (c * pow10(z)) * 1 * pow10((-k) as nat))
            by (nonlinear_arith)
            requires
                pow10(down) == pow10(z) * pow10((-k) as nat),
        ;
    }
}

fn is_exponent_mark(c: char) -> (r: bool)
    ensures
        r == (c == 'e' || c == 'E'),
{
    c == 'e' || c == 'E'
}

/// The first exponent mark of `s` between `from` and `to`, or `to`.
fn find_exponent(s: &str, from: usize, to: usize) -> (r: usize)
    requires
        from <= to <= s@.len(),
    ensures
        from <= r <= to,
        r - from == first_exp(s@.subrange(from as int, to as int)),
{
    let mut q: usize = from;
    while q < to && !is_exponent_mark(s.get_char(q))
        invariant
            from <= q <= to <= s@.len(),
            first_exp(s@.subrange(from as int, to as int)) == (q - from) + first_exp(
                s@.subrange(q as int, to as int),
            ),
        decreases to - q,
    {
        assert(s@.subrange(q as int, to as int).drop_first() =~= s@.subrange(q + 1, to as int));
        q = q + 1;
    }
    q
}

/// The first `.` of `s` between `from` and `to`, or `to`.
fn find_dot(s: &str, from: usize, to: usize) -> (r: usize)
    requires
        from <= to <= s@.len(),
    ensures
        from <= r <= to,
        r - from == first_dot(s@.subrange(from as int, to as int)),
{
    let mut k: usize = from;
    while k < to && s.get_char(k) != '.'
        invariant
            from <= k <= to <= s@.len(),
            first_dot(s@.subrange(from as int, to as int)) == (k - from) + first_dot(
                s@.subrange(k as int, to as int),
            ),
        decreases to - k,
    {
        assert(s@.subrange(k as int, to as int).drop_first() =~= s@.subrange(k + 1, to as int));
        k = k + 1;
    }
    k
}
/// Bound above which an exponent is not read exactly: no decimal can hold a
/// non-zero value with an exponent that large.
pub const EXPONENT_CAP: u128 = 0x1_0000_0000_0000_0000_0000_0000;

fn is_digit_char(c: char) -> (r: bool)
    ensures
        r == is_digit(c),
{
    '0' <= c && c <= '9'
}

/// Appends the characters of `s` from `from` to `to` to `v`, if all are digits.
fn push_digits(s: &str, from: usize, to: usize, v: &mut Vec<char>) -> (ok: bool)
    requires
        from <= to <= s@.len(),
    ensures
        ok == all_digits(s@.subrange(from as int, to as int)),
        ok ==> final(v)@ == old(v)@ + s@.subrange(from as int, to as int),
{
    let mut i: usize = from;
    assert(old(v)@ + s@.subrange(from as int, from as int) =~= old(v)@);
    while i < to
        invariant
            from <= i <= to <= s@.len(),
            v@ == old(v)@ + s@.subrange(from as int, i as int),
            all_digits(s@.subrange(from as int, i as int)),
        decreases to - i,
    {
        let c = s.get_char(i);
        if !is_digit_char(c) {
            assert(!is_digit(s@.subrange(from as int, to as int)[i - from]));
            return false;
        }
        v.push(c);
        assert(v@ =~= old(v)@ + s@.subrange(from as int, i + 1));
        assert forall|j: int| 0 <= j < i + 1 - from implies is_digit(
            #[trigger] s@.subrange(from as int, i + 1)[j],
        ) by {
            if j < i - from {
                assert(s@.subrange(from as int, i + 1)[j] == s@.subrange(from as int, i as int)[j]);
            }
        }
        i = i + 1;
    }
    true
}

/// The length of `v` without its trailing zeros.
fn significant_count(v: &Vec<char>) -> (n: usize)
    ensures
        n == significant_len(v@),
{
    let mut n: usize = v.len();
    assert(v@.take(n as int) =~= v@);
    while n > 0 && v[n - 1] == '0'
        invariant
            n <= v.len(),
            significant_len(v@) == significant_len(v@.take(n as int)),
        decreases n,
    {
        assert(v@.take(n as int).drop_last() =~= v@.take(n - 1));
        n = n - 1;
    }
    n
}

/// The number that the first `n` digits of `v` denote, if it is at most `cap`.
fn value_up_to(v: &Vec<char>, n: usize, cap: u128) -> (r: Option<u128>)
    requires
        all_digits(v@),
        n <= v.len(),
        cap <= EXPONENT_CAP,
    ensures
        match r {
            Some(x) => x == digits_value(v@.take(n as int)) && x <= cap,
            None => digits_value(v@.take(n as int)) > cap,
        },
{
    let mut i: usize = 0;
    let mut acc: u128 = 0;
    let mut over = false;
    assert(v@.take(0) =~= Seq::<char>::empty());
    while i < n
        invariant
            all_digits(v@),
            i <= n <= v.len(),
            cap <= EXPONENT_CAP,
            !over ==> acc == digits_value(v@.take(i as int)) && acc <= cap,
            over ==> digits_value(v@.take(i as int)) > cap,
        decreases n - i,
    {
        let c = v[i];
        assert(v@.take(i + 1).drop_last() =~= v@.take(i as int));
        assert(is_digit(v@[i as int]));
        if !over {
            let d = (c as u32 - '0' as u32) as u128;
            assert(d == digit_value(c));
            let x = acc * 10 + d;
            if x > cap {
                over = true;
            } else {
                acc = x;
            }
        }
        i = i + 1;
    }
    if over {
        None
    } else {
        Some(acc)
    }
}

proof fn lemma_pow10_20()
    ensures
        pow10(20) == 100_000_000_000_000_000_000,
{
    reveal_with_fuel(pow10, 21);
}

/// The decimal of `(-1)^negative * c * 10^k`, for `c` without trailing zero.
fn scale_value(negative: bool, c: u128, k: i128) -> (r: Option<Decimal>)
    requires
        c <= u64::MAX,
    ensures
        r == scaled(negative, c as nat, k as int),
        r matches Some(d) ==> d.wf(),
{
    if c == 0 {
        return Some(Decimal { negative, units: 0, scale: 0 });
    }
    if k >= 0 {
        if k > 19 {
            proof {
                lemma_pow10_mono(20, k as nat);
                lemma_pow10_20();
                assert(c * pow10(k as nat) >= pow10(k as nat)) by (nonlinear_arith)
                    requires
                        c >= 1,
                ;
            }
            return None;
        }
        let p = pow10_exec(k as u32);
        proof {
            lemma_pow10_mono(k as nat, 19);
            reveal_with_fuel(pow10, 20);
            assert(c * p <= 18446744073709551615u128 * 10_000_000_000_000_000_000u128)
                by (nonlinear_arith)
                requires
                    c <= 18446744073709551615u128,
                    p <= 10_000_000_000_000_000_000u128,
            ;
        }
        let u = c * p;
        if u > u64::MAX as u128 {
            None
        } else {
            Some(Decimal { negative, units: u as u64, scale: 0 })
        }
    } else if k < -19 {
        None
    } else {
        Some(Decimal { negative, units: c as u64, scale: (-k) as u32 })
    }
}

/// Reads the exponent written from `from` to `to`: its sign, and its value
/// unless that exceeds [`EXPONENT_CAP`] (`big`). `None` if it is no signed
/// run of at least one digit.
fn read_exponent(s: &str, from: usize, to: usize) -> (r: Option<(bool, u128, bool)>)
    requires
        from <= to <= s@.len(),
    ensures
        ({
            let e = s@.subrange(from as int, to as int);
            let u = unsigned_part(e);
            match r {
                None => !(u.len() > 0 && all_digits(u)),
                Some((negative, v, big)) => v <= EXPONENT_CAP && u.len() > 0 && all_digits(u) && negative == (e.len()
                    > 0 && e[0] == '-') && (!big ==> v == digits_value(u)) && (big
                    ==> digits_value(u) > EXPONENT_CAP),
            }
        }),
{
    let ghost e = s@.subrange(from as int, to as int);
    let mut i = from;
    let mut negative = false;
    if i < to {
        let c = s.get_char(i);
        if c == '+' || c == '-' {
            negative = c == '-';
            i = i + 1;
        }
    }
    assert(unsigned_part(e) =~= s@.subrange(i as int, to as int));
    let mut ed: Vec<char> = Vec::new();
    if i == to || !push_digits(s, i, to, &mut ed) {
        return None;
    }
    assert(ed@.take(ed.len() as int) =~= ed@);
    match value_up_to(&ed, ed.len(), EXPONENT_CAP) {
        Some(x) => Some((negative, x, false)),
        None => Some((negative, 0, true)),
    }
}

/// The decimal of the digits `v`, of which `flen` follow the point, times
/// ten to the power `e`; `big` says that `e` exceeds [`EXPONENT_CAP`] in size,
/// else it is `exp_value` with the sign `exp_negative`.
fn assemble(
    negative: bool,
    v: &Vec<char>,
    flen: usize,
    exp_negative: bool,
    exp_value: u128,
    big: bool,
    Ghost(e): Ghost<int>,
) -> (r: Option<Decimal>)
    requires
        all_digits(v@),
        exp_value <= EXPONENT_CAP,
        !big ==> e == (if exp_negative {
            -(exp_value as int)
        } else {
            exp_value as int
        }),
        big ==> e > EXPONENT_CAP || e < -EXPONENT_CAP,
    ensures
        ({
            let n = significant_len(v@);
            r == scaled(negative, digits_value(v@.take(n as int)), e - flen + (v@.len() - n))
        }),
        r matches Some(d) ==> d.wf(),
{
    let n = significant_count(v);
    proof {
        lemma_significant_digits(v@);
    }
    let ghost c = digits_value(v@.take(n as int));
    let ghost kk = e - flen + (v@.len() - n);
    if n == 0 {
        assert(v@.take(0) =~= Seq::<char>::empty());
        return Some(Decimal { negative, units: 0, scale: 0 });
    }
    proof {
        let last = v@.take(n as int).last();
        assert(v@.take(n as int).drop_last() =~= v@.take(n - 1));
        assert(v@[n - 1] == last);
        assert(is_digit(v@[n - 1]));
        assert(is_digit(last) && last != '0');
        assert(c >= 1);
    }
    let core = value_up_to(v, n, u64::MAX as u128);
    let c_exec = match core {
        None => {
            proof {
                lemma_pow10_positive((if kk >= 0 {
                    kk
                } else {
                    0
                }) as nat);
                assert(c * pow10((if kk >= 0 {
                    kk
                } else {
                    0
                }) as nat) >= c) by (nonlinear_arith)
                    requires
                        pow10(
                            (if kk >= 0 {
                                kk
                            } else {
                                0
                            }) as nat,
                        ) >= 1,
                ;
            }
            return None;
        },
        Some(x) => x,
    };
    let len = v.len();
    if big {
        proof {
            assert(usize::MAX <= u64::MAX);
            assert(len == v@.len());
            assert(kk >= 20 || kk <= -20);
            if kk >= 0 {
                lemma_pow10_mono(20, kk as nat);
                lemma_pow10_20();
                assert(c * pow10(kk as nat) >= pow10(kk as nat)) by (nonlinear_arith)
                    requires
                        c >= 1,
                ;
            }
        }
        return None;
    }
    let kx: i128 = if exp_negative {
        -(exp_value as i128)
    } else {
        exp_value as i128
    } - flen as i128 + (v.len() - n) as i128;
    scale_value(negative, c_exec, kx)
}

/// Parses `s`, surrounding whitespace aside, as a decimal literal, exponent
/// included. `None` where `s` is no decimal literal, where it is `inf` or
/// `NaN`, and where its value cannot be held: see [`decimal_of`].
#[verifier::rlimit(60)]
pub fn parse_decimal(s: &str) -> (r: Option<Decimal>)
    ensures
        r == decimal_of(s@),
        r matches Some(d) ==> d.wf(),
{
    let (a, b) = trim_bounds(s);
    let ghost t = s@.subrange(a as int, b as int);
    let mut negative = false;
    let mut start: usize = a;
    if a < b {
        let c = s.get_char(a);
        if c == '+' || c == '-' {
            negative = c == '-';
            start = a + 1;
        }
    }
    assert(negative == (t.len() > 0 && t[0] == '-'));
    let ghost body = unsigned_part(t);
    assert(body =~= s@.subrange(start as int, b as int));
    let q = find_exponent(s, start, b);
    let ghost m = mantissa_part(body);
    assert(m =~= s@.subrange(start as int, q as int));
    let k = find_dot(s, start, q);
    assert(whole_digits(m) =~= s@.subrange(start as int, k as int));
    let frac_from: usize = if k < q {
        k + 1
    } else {
        q
    };
    assert(fraction_digits(m) =~= s@.subrange(frac_from as int, q as int));
    let mut digits: Vec<char> = Vec::new();
    if !push_digits(s, start, k, &mut digits) {
        return None;
    }
    if !push_digits(s, frac_from, q, &mut digits) {
        return None;
    }
    assert(digits@ =~= mantissa_digits(body));
    if digits.len() == 0 {
        return None;
    }
    let (exp_negative, exp_value, big) = if q < b {
        assert(exponent_part(body) =~= s@.subrange(q + 1, b as int));
        match read_exponent(s, q + 1, b) {
            None => {
                return None;
            },
            Some(x) => x,
        }
    } else {
        (false, 0, false)
    };
    assert(is_decimal_literal(t));
    assert(all_digits(digits@));
    assemble(
        negative,
        &digits,
        q - frac_from,
        exp_negative,
        exp_value,
        big,
        Ghost(exponent_value(body)),
    )
}

/// The digits after the point of `f / 10^w`, without trailing zeros.
pub open spec fn fraction_text(f: nat, w: nat) -> Seq<char>
    decreases w,
{
    if w > 0 && f % 10 == 0 {
        fraction_text(f / 10, (w - 1) as nat)
    } else {
        padded_text(f, w)
    }
}

/// The shortest decimal text of the value of `d`: no exponent, no trailing
/// zeros after the point, no point for a whole number.
pub open spec fn decimal_text(d: Decimal) -> Seq<char> {
    let q = d.denominator();
    let whole = (d.units as nat) / q;
    let frac = (d.units as nat) % q;
    let sign: Seq<char> = if d.negative && d.units > 0 {
        seq!['-']
    } else {
        seq![]
    };
    if frac == 0 {
        sign + nat_text(whole)
    } else {
        sign + nat_text(whole) + seq!['.'] + fraction_text(frac, d.scale as nat)
    }
}

impl Decimal {
    /// The shortest decimal text of the value.
    pub fn to_text(&self) -> (r: String)
        requires
            self.wf(),
        ensures
            r@ == decimal_text(*self),
    {
        let q = self.denominator_exec();
        let whole = (self.units as u128 / q) as u64;
        let frac = self.units as u128 % q;
        let mut s = String::new();
        if self.negative && self.units > 0 {
            s.append("-");
            proof {
                reveal_strlit("-");
            }
        }
        append_nat(&mut s, whole);
        if frac != 0 {
            s.append(".");
            proof {
                reveal_strlit(".");
            }
            let mut f: u128 = frac;
            let mut w: u32 = self.scale;
            while w > 0 && f % 10 == 0
                invariant
                    fraction_text(frac as nat, self.scale as nat) == fraction_text(
                        f as nat,
                        w as nat,
                    ),
                decreases w,
            {
                f = f / 10;
                w = w - 1;
            }
            append_padded(&mut s, f, w);
        }
        assert(s@ =~= decimal_text(*self));
        s
    }
}

} // verus!
