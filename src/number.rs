use vstd::prelude::*;
use crate::text::{decimal, digit_char, digit_to_char, push_char, push_decimal};

verus! {

/// The largest magnitude either part of a number may have.
pub open spec fn in_range(x: int) -> bool {
    i64::MIN < x <= i64::MAX
}

/// An exact rational number `num / den` with a positive denominator.
///
/// Two numbers are equal when they denote the same rational, whatever
/// their representation.
#[derive(Clone, Copy, Debug)]
pub struct Number {
    num: i64,
    den: i64,
}

/// The greatest number of digits written after the decimal point.
pub const FRACTION_DIGITS: u64 = 16;

/// Whether the two numbers denote the same rational.
pub open spec fn same_value(a: Number, b: Number) -> bool {
    a.numer() * b.denom() == b.numer() * a.denom()
}

/// Whether `a` denotes a smaller rational than `b`.
pub open spec fn less_value(a: Number, b: Number) -> bool {
    a.numer() * b.denom() < b.numer() * a.denom()
}

/// The number with numerator `n` and denominator `d`, where both fit.
pub closed spec fn make(n: int, d: int) -> Option<Number> {
    if in_range(n) && 0 < d <= i64::MAX {
        Some(Number { num: n as i64, den: d as i64 })
    } else {
        None
    }
}

/// The exact sum, where it can be represented.
pub open spec fn add_spec(a: Number, b: Number) -> Option<Number> {
    if a.denom() == b.denom() {
        make(a.numer() + b.numer(), a.denom() as int)
    } else {
        make(a.numer() * b.denom() + b.numer() * a.denom(), a.denom() * b.denom())
    }
}

/// The exact difference, where it can be represented.
pub open spec fn sub_spec(a: Number, b: Number) -> Option<Number> {
    if a.denom() == b.denom() {
        make(a.numer() - b.numer(), a.denom() as int)
    } else {
        make(a.numer() * b.denom() - b.numer() * a.denom(), a.denom() * b.denom())
    }
}

/// The exact product, where it can be represented.
pub open spec fn mul_spec(a: Number, b: Number) -> Option<Number> {
    make(a.numer() * b.numer(), a.denom() * b.denom())
}

/// The exact quotient, where the divisor is not zero and the result can be
/// represented.
pub open spec fn div_spec(a: Number, b: Number) -> Option<Number> {
    if b.numer() == 0 {
        None
    } else if b.numer() > 0 {
        make(a.numer() * b.denom(), a.denom() * b.numer())
    } else {
        make(-(a.numer() * b.denom()), -(a.denom() * b.numer()))
    }
}

/// The negation, where it can be represented.
pub open spec fn neg_spec(a: Number) -> Option<Number> {
    make(-a.numer(), a.denom() as int)
}

/// Up to `k` digits of the decimal expansion of `r / d`, where `0 <= r < d`,
/// stopping early when the expansion ends.
pub open spec fn fraction_digits(r: nat, d: nat, k: nat) -> Seq<char>
    decreases k,
{
    if r == 0 || k == 0 || d == 0 {
        Seq::empty()
    } else {
        seq![digit_char(((r * 10) / d) as int)] + fraction_digits((r * 10) % d, d, (k - 1) as nat)
    }
}

/// Text for a non-negative rational `n / d`: the integer part, then, unless
/// the number is whole, a point and at most sixteen digits of the fraction.
pub open spec fn magnitude_text(n: nat, d: nat) -> Seq<char> {
    if d == 0 {
        Seq::empty()
    } else if n % d == 0 {
        decimal(n / d)
    } else {
        decimal(n / d).push('.') + fraction_digits(n % d, d, FRACTION_DIGITS as nat)
    }
}

/// How a number is written when printed.
pub open spec fn number_text(a: Number) -> Seq<char> {
    if a.numer() < 0 {
        seq!['-'] + magnitude_text((-a.numer()) as nat, a.denom() as nat)
    } else {
        magnitude_text(a.numer() as nat, a.denom() as nat)
    }
}

/// The value of a string of decimal digits.
pub open spec fn digits_value(s: Seq<char>) -> int
    decreases s.len(),
{
    if s.len() == 0 {
        0
    } else {
        digits_value(s.drop_last()) * 10 + (s.last() as int - '0' as int)
    }
}

pub open spec fn pow10(k: nat) -> int
    decreases k,
{
    if k == 0 { 1 } else { 10 * pow10((k - 1) as nat) }
}

/// The number written `whole.frac` (with `frac` possibly empty), where it can
/// be represented.
pub open spec fn literal_value(whole: Seq<char>, frac: Seq<char>) -> Option<Number> {
    make(digits_value(whole + frac), pow10(frac.len()))
}

pub open spec fn is_digit(c: char) -> bool {
    '0' <= c <= '9'
}

proof fn lemma_wide(a: i64, b: i64)
    requires
        in_range(a as int),
        in_range(b as int),
    ensures
        -0x4000_0000_0000_0000_0000_0000_0000_0000 < (a as int) * (b as int) < 0x4000_0000_0000_0000_0000_0000_0000_0000,
{
    assert(-0x4000_0000_0000_0000_0000_0000_0000_0000 < (a as int) * (b as int) < 0x4000_0000_0000_0000_0000_0000_0000_0000) by (nonlinear_arith)
        requires
            i64::MIN < a <= i64::MAX,
            i64::MIN < b <= i64::MAX,
    {}
}

fn mul_wide(a: i64, b: i64) -> (r: i128)
    requires
        in_range(a as int),
        in_range(b as int),
    ensures
        r == a * b,
        -0x4000_0000_0000_0000_0000_0000_0000_0000 < r < 0x4000_0000_0000_0000_0000_0000_0000_0000,
{
    proof { lemma_wide(a, b); }
    (a as i128) * (b as i128)
}

fn make_exec(n: i128, d: i128) -> (r: Option<Number>)
    ensures
        r == make(n as int, d as int),
{
    if (i64::MIN as i128) < n && n <= i64::MAX as i128 && 0 < d && d <= i64::MAX as i128 {
        Some(Number { num: n as i64, den: d as i64 })
    } else {
        None
    }
}

/// What `make` yields: a number with exactly the given parts where both
/// fit, and nothing otherwise.
pub proof fn lemma_make(n: int, d: int)
    ensures
        (make(n, d) is Some) == (in_range(n) && 0 < d <= i64::MAX),
        make(n, d) matches Some(x) ==> x.numer() == n && x.denom() == d,
{
}

/// A number is determined by its two parts.
pub proof fn lemma_parts_determine(a: Number, b: Number)
    requires
        a.numer() == b.numer(),
        a.denom() == b.denom(),
    ensures
        a == b,
{
}

impl Number {
    /// Every number has a positive denominator, and a numerator whose
    /// negation fits.
    #[verifier::type_invariant]
    spec fn inv(self) -> bool {
        0 < self.den && in_range(self.num as int)
    }

    pub closed spec fn numer(self) -> int {
        self.num as int
    }

    pub closed spec fn denom(self) -> int {
        self.den as int
    }

    pub closed spec fn zero_spec() -> Number {
        Number { num: 0, den: 1 }
    }

    /// Zero has numerator zero and denominator one.
    pub proof fn lemma_zero()
        ensures
            Number::zero_spec().numer() == 0,
            Number::zero_spec().denom() == 1,
    {
    }

    /// The number zero.
    pub fn zero() -> (r: Number)
        ensures
            r == Number::zero_spec(),
    {
        Number { num: 0, den: 1 }
    }

    /// The whole number `n`.
    pub fn from_int(n: i64) -> (r: Number)
        requires
            in_range(n as int),
        ensures
            r.numer() == n,
            r.denom() == 1,
    {
        Number { num: n, den: 1 }
    }

    /// The number `n / d`, where `d` is positive and both fit.
    pub fn ratio(n: i64, d: i64) -> (r: Option<Number>)
        ensures
            r == make(n as int, d as int),
    {
        make_exec(n as i128, d as i128)
    }

    pub fn numerator(&self) -> (r: i64)
        ensures
            r == self.numer(),
    {
        self.num
    }

    pub fn denominator(&self) -> (r: i64)
        ensures
            r == self.denom(),
    {
        self.den
    }

    pub fn checked_add(&self, o: &Number) -> (r: Option<Number>)
        ensures
            r == add_spec(*self, *o),
    {
        proof { use_type_invariant(self); use_type_invariant(o); }
        if self.den == o.den {
            make_exec(self.num as i128 + o.num as i128, self.den as i128)
        } else {
            let a = mul_wide(self.num, o.den);
            let b = mul_wide(o.num, self.den);
            make_exec(a + b, mul_wide(self.den, o.den))
        }
    }

    pub fn checked_sub(&self, o: &Number) -> (r: Option<Number>)
        ensures
            r == sub_spec(*self, *o),
    {
        proof { use_type_invariant(self); use_type_invariant(o); }
        if self.den == o.den {
            make_exec(self.num as i128 - o.num as i128, self.den as i128)
        } else {
            let a = mul_wide(self.num, o.den);
            let b = mul_wide(o.num, self.den);
            make_exec(a - b, mul_wide(self.den, o.den))
        }
    }

    pub fn checked_mul(&self, o: &Number) -> (r: Option<Number>)
        ensures
            r == mul_spec(*self, *o),
    {
        proof { use_type_invariant(self); use_type_invariant(o); }
        make_exec(mul_wide(self.num, o.num), mul_wide(self.den, o.den))
    }

    pub fn checked_div(&self, o: &Number) -> (r: Option<Number>)
        ensures
            r == div_spec(*self, *o),
    {
        proof { use_type_invariant(self); use_type_invariant(o); }
        if o.num == 0 {
            None
        } else if o.num > 0 {
            make_exec(mul_wide(self.num, o.den), mul_wide(self.den, o.num))
        } else {
            make_exec(-mul_wide(self.num, o.den), -mul_wide(self.den, o.num))
        }
    }

    pub fn checked_neg(&self) -> (r: Option<Number>)
        ensures
            r == neg_spec(*self),
    {
        proof { use_type_invariant(self); }
        make_exec(-(self.num as i128), self.den as i128)
    }

    /// Whether the two numbers denote the same rational.
    pub fn same(&self, o: &Number) -> (r: bool)
        ensures
            r == same_value(*self, *o),
    {
        proof { use_type_invariant(self); use_type_invariant(o); }
        mul_wide(self.num, o.den) == mul_wide(o.num, self.den)
    }

    /// Whether `self` denotes a smaller rational than `o`.
    pub fn less(&self, o: &Number) -> (r: bool)
        ensures
            r == less_value(*self, *o),
    {
        proof { use_type_invariant(self); use_type_invariant(o); }
        mul_wide(self.num, o.den) < mul_wide(o.num, self.den)
    }

    /// Appends the printed form of the number to `s`.
    pub fn push_text(&self, s: &mut String)
        ensures
            final(s)@ == old(s)@ + number_text(*self),
    {
        proof { use_type_invariant(self); }
        let mag: u64;
        if self.num < 0 {
            push_char(s, '-');
            mag = (-(self.num as i128)) as u64;
        } else {
            mag = self.num as u64;
        }
        let d = self.den as u64;
        push_decimal(s, mag / d);
        let r = mag % d;
        if r != 0 {
            push_char(s, '.');
            push_fraction(s, r, d, FRACTION_DIGITS);
        }
        assert(final(s)@ =~= old(s)@ + number_text(*self));
    }
}

fn push_fraction(s: &mut String, r: u64, d: u64, k: u64)
    requires
        r < d,
    ensures
        final(s)@ == old(s)@ + fraction_digits(r as nat, d as nat, k as nat),
    decreases k,
{
    if r == 0 || k == 0 {
        assert(final(s)@ =~= old(s)@ + fraction_digits(r as nat, d as nat, k as nat));
    } else {
        let t: u128 = r as u128 * 10;
        assert(t / (d as u128) < 10) by (nonlinear_arith)
            requires t == r * 10, r < d;
        push_char(s, digit_to_char((t / d as u128) as u64));
        push_fraction(s, (t % d as u128) as u64, d, k - 1);
        assert(final(s)@ =~= old(s)@ + fraction_digits(r as nat, d as nat, k as nat));
    }
}

pub open spec fn all_digits(s: Seq<char>) -> bool {
    forall|i: int| 0 <= i < s.len() ==> is_digit(#[trigger] s[i])
}

proof fn lemma_digits_grow(s: Seq<char>, i: int, j: int)
    requires
        all_digits(s),
        0 <= i <= j <= s.len(),
    ensures
        0 <= digits_value(s.take(i)) <= digits_value(s.take(j)),
    decreases j - i,
{
    if i < j {
        lemma_digits_grow(s, i, j - 1);
        assert(s.take(j).drop_last() =~= s.take(j - 1));
        assert(is_digit(s[j - 1]));
    } else {
        lemma_digits_nonneg(s.take(i));
    }
}

proof fn lemma_digits_nonneg(s: Seq<char>)
    requires
        all_digits(s),
    ensures
        0 <= digits_value(s),
    decreases s.len(),
{
    if s.len() > 0 {
        assert(all_digits(s.drop_last()));
        lemma_digits_nonneg(s.drop_last());
        assert(is_digit(s[s.len() - 1]));
    }
}

proof fn lemma_pow10_grow(a: nat, b: nat)
    requires
        a <= b,
    ensures
        1 <= pow10(a) <= pow10(b),
    decreases b,
{
    if a < b {
        lemma_pow10_grow(a, (b - 1) as nat);
    } else if a > 0 {
        lemma_pow10_grow((a - 1) as nat, (a - 1) as nat);
    }
}

impl Number {
    /// The number written in `src[start..dot]`, followed, where
    /// `dot < end`, by a point at `dot` and the digits `src[dot + 1..end]`.
    /// `None` where it does not fit.
    pub fn parse_literal(src: &Vec<char>, start: usize, dot: usize, end: usize) -> (r: Option<Number>)
        requires
            start <= dot <= end <= src@.len(),
            dot < end ==> dot + 1 <= end,
            all_digits(src@.subrange(start as int, dot as int)),
            dot < end ==> all_digits(src@.subrange(dot + 1, end as int)),
        ensures
            r == literal_value(src@.subrange(start as int, dot as int),
                if dot < end { src@.subrange(dot + 1, end as int) } else { Seq::<char>::empty() }),
    {
        let ghost whole = src@.subrange(start as int, dot as int);
        let ghost frac = if dot < end { src@.subrange(dot + 1, end as int) } else { Seq::<char>::empty() };
        let ghost w = whole + frac;
        let nw = dot - start;
        let nf: usize = if dot < end { end - dot - 1 } else { 0 };
        assert(w.len() == nw + nf);
        assert(all_digits(w)) by {
            assert forall|i: int| 0 <= i < w.len() implies is_digit(#[trigger] w[i]) by {
                if i < nw {
                    assert(w[i] == whole[i]);
                } else {
                    assert(w[i] == frac[i - nw]);
                }
            }
        }
        let mut v: i64 = 0;
        let mut i: usize = 0;
        while i < nw + nf
            invariant
                nw == dot - start,
                w.len() == nw + nf,
                i <= nw + nf,
                all_digits(w),
                v as int == digits_value(w.take(i as int)),
                v >= 0,
                start <= dot <= end <= src@.len(),
                dot < end ==> nf == end - dot - 1,
                dot >= end ==> nf == 0,
                w == whole + frac,
                whole == src@.subrange(start as int, dot as int),
                frac == (if dot < end { src@.subrange(dot + 1, end as int) } else { Seq::<char>::empty() }),
            decreases nw + nf - i,
        {
            let c = if i < nw { src[start + i] } else { src[dot + 1 + (i - nw)] };
            assert(c == w[i as int]);
            assert(is_digit(w[i as int]));
            let d = (c as u32 - '0' as u32) as i64;
            assert(0 <= d <= 9);
            assert(w.take(i + 1).drop_last() =~= w.take(i as int));
            if v > (i64::MAX - d) / 10 {
                proof {
                    lemma_digits_grow(w, i + 1, w.len() as int);
                    assert(w.take(w.len() as int) =~= w);
                }
                return None;
            }
            assert(v * 10 + d <= i64::MAX) by (nonlinear_arith)
                requires v <= (i64::MAX - d) / 10, 0 <= d <= 9, v >= 0;
            v = v * 10 + d;
            i = i + 1;
        }
        assert(w.take(w.len() as int) =~= w);
        let mut den: i64 = 1;
        let mut k: usize = 0;
        while k < nf
            invariant
                k <= nf,
                den as int == pow10(k as nat),
                den >= 1,
                frac.len() == nf,
                start <= dot <= end <= src@.len(),
                whole == src@.subrange(start as int, dot as int),
                frac == (if dot < end { src@.subrange(dot + 1, end as int) } else { Seq::<char>::empty() }),
            decreases nf - k,
        {
            if den > i64::MAX / 10 {
                proof {
                    lemma_pow10_grow((k + 1) as nat, nf as nat);
                    assert(pow10((k + 1) as nat) == 10 * pow10(k as nat));
                    assert(10 * den > i64::MAX) by (nonlinear_arith)
                        requires den > i64::MAX / 10;
                }
                return None;
            }
            assert(den * 10 <= i64::MAX) by (nonlinear_arith)
                requires den <= i64::MAX / 10, den >= 1;
            den = den * 10;
            k = k + 1;
        }
        proof { lemma_digits_nonneg(w); }
        Some(Number { num: v, den })
    }
}

} // verus!
