//! Single-precision numbers (IEEE 754 binary32), held by their bit pattern and
//! computed on in integers.
//!
//! The tuning knobs of the daemon are single-precision fractions and factors.
//! Every finite one is a whole number of units of 2^-149, so each operation
//! that the daemon needs — scale a `u32`, divide two `u32`s and hold the
//! quotient against a threshold, order two numbers — has an exact statement
//! over the integers: the real-valued result, rounded to 24 significant bits,
//! ties to even.

use vstd::arithmetic::power2::*;
use vstd::prelude::*;

verus! {

/// A single-precision number, by its bit pattern.
#[derive(Debug, Clone, Copy)]
pub struct Single {
    pub bits: u32,
}

impl Single {
    /// Whether the sign bit is set.
    pub open spec fn negative(self) -> bool {
        self.bits >= 0x8000_0000
    }

    /// The bits below the sign bit.
    pub open spec fn magnitude_bits(self) -> nat {
        self.bits as nat % 0x8000_0000
    }

    /// The biased exponent.
    pub open spec fn exponent_field(self) -> nat {
        self.magnitude_bits() / 0x80_0000
    }

    /// The explicit part of the significand.
    pub open spec fn fraction_field(self) -> nat {
        self.magnitude_bits() % 0x80_0000
    }

    /// Not a number.
    pub open spec fn nan(self) -> bool {
        self.exponent_field() == 255 && self.fraction_field() != 0
    }

    /// Neither infinite nor not a number.
    pub open spec fn finite(self) -> bool {
        self.exponent_field() < 255
    }

    /// The significand, with its implicit leading bit where there is one.
    pub open spec fn significand(self) -> nat {
        if self.exponent_field() == 0 {
            self.fraction_field()
        } else {
            0x80_0000 + self.fraction_field()
        }
    }

    /// The power of two that the significand counts, above 2^-149.
    pub open spec fn shift(self) -> nat {
        if self.exponent_field() == 0 {
            0
        } else {
            (self.exponent_field() - 1) as nat
        }
    }

    /// The absolute value in units of 2^-149. For an infinity this is a number
    /// above that of every finite one.
    pub open spec fn units(self) -> nat {
        self.significand() * pow2(self.shift())
    }

    /// The value in units of 2^-149.
    pub open spec fn value(self) -> int {
        if self.negative() {
            -(self.units() as int)
        } else {
            self.units() as int
        }
    }

    /// Whether `self < other`, which is false where either is not a number.
    pub open spec fn below(self, other: Single) -> bool {
        !self.nan() && !other.nan() && self.value() < other.value()
    }
}

/// How many bits `p` has beyond 24.
pub open spec fn excess_bits(p: nat) -> nat
    decreases p,
{
    if p < 0x100_0000 {
        0
    } else {
        1 + excess_bits(p / 2)
    }
}

/// `n / d` to the nearest integer, ties to even.
pub open spec fn half_even(n: nat, d: nat) -> nat {
    let q = n / d;
    let r = n % d;
    if 2 * r < d || (2 * r == d && q % 2 == 0) {
        q
    } else {
        q + 1
    }
}

/// `n / d` rounded to 24 significant bits, ties to even. (`n / d` has at least
/// 24 bits before the point, or is whole.)
pub open spec fn nearest(n: nat, d: nat) -> nat {
    let step = pow2(excess_bits(n / d));
    half_even(n, d * step) * step
}

/// `x` rounded to 24 significant bits: what `x` is as a single-precision number.
pub open spec fn as_single(x: nat) -> nat {
    nearest(x, 1)
}

/// `x * f`, in units of `2^f.shift()` times 2^-149: the product of the rounded
/// `x` with the significand of `f`, itself rounded.
pub open spec fn product(x: nat, f: Single) -> nat {
    nearest(as_single(x) * f.significand(), 1)
}

/// `n * 2^(shift - 149)`, rounded down.
pub open spec fn floor_units(n: nat, shift: nat) -> nat {
    if shift >= 149 {
        n * pow2((shift - 149) as nat)
    } else {
        n / pow2((149 - shift) as nat)
    }
}

/// `n * 2^(shift - 149)` to the nearest integer, ties away from zero.
pub open spec fn round_units(n: nat, shift: nat) -> nat {
    if shift >= 149 {
        n * pow2((shift - 149) as nat)
    } else {
        (n + pow2((148 - shift) as nat)) / pow2((149 - shift) as nat)
    }
}

/// `v`, or `u32::MAX` where it is larger.
pub open spec fn saturated(v: nat) -> u32 {
    if v <= u32::MAX {
        v as u32
    } else {
        u32::MAX
    }
}

/// The product of `x` and `f` as a `u32`: `whole` of it where it is a positive
/// finite number, clamped to the range of `u32`; zero where it is negative or
/// not a number.
pub open spec fn clamped_product(x: u32, f: Single, whole: nat) -> u32 {
    if f.nan() || f.negative() || x == 0 {
        0
    } else if !f.finite() {
        u32::MAX
    } else {
        saturated(whole)
    }
}

/// `x * f` truncated to a `u32`, saturating.
pub open spec fn scaled_down(x: u32, f: Single) -> u32 {
    clamped_product(x, f, floor_units(product(x as nat, f), f.shift()))
}

/// `x * f` rounded to the nearest `u32`, ties away from zero, saturating.
pub open spec fn scaled_nearest(x: u32, f: Single) -> u32 {
    clamped_product(x, f, round_units(product(x as nat, f), f.shift()))
}

/// `a / b` as a single-precision number, in units of 2^-56.
pub open spec fn quotient(a: nat, b: nat) -> nat {
    nearest(as_single(a) * pow2(56), as_single(b))
}

/// Whether the single-precision quotient `a / b` is below `t`.
pub open spec fn quotient_below(a: u32, b: u32, t: Single) -> bool {
    !t.nan() && quotient(a as nat, b as nat) * pow2(93) < t.value()
}

// ---------------------------------------------------------------------------
// Powers of two and rounding, executable
// ---------------------------------------------------------------------------

/// `2^k`.
fn two_to(k: u32) -> (r: u128)
    requires
        k <= 126,
    ensures
        r == pow2(k as nat),
        r >= 1,
{
    let mut r: u128 = 1;
    let mut i: u32 = 0;
    proof {
        vstd::arithmetic::power2::lemma2_to64();
    }
    while i < k
        invariant
            i <= k <= 126,
            r == pow2(i as nat),
            r >= 1,
        decreases k - i,
    {
        proof {
            lemma_pow2_unfold((i + 1) as nat);
            lemma_pow2_bound((i + 1) as nat, 126);
        }
        r = r * 2;
        i = i + 1;
    }
    r
}

proof fn lemma_pow2_bound(a: nat, b: nat)
    requires
        a <= b <= 126,
    ensures
        pow2(a) <= pow2(b) <= 0x4000_0000_0000_0000_0000_0000_0000_0000,
{
    if a < b {
        lemma_pow2_strictly_increases(a, b);
    }
    if b < 126 {
        lemma_pow2_strictly_increases(b, 126);
    }
    lemma_pow2_adds(63, 63);
    vstd::arithmetic::power2::lemma2_to64();
    vstd::arithmetic::power2::lemma2_to64_rest();
    assert(0x8000_0000_0000_0000nat * 0x8000_0000_0000_0000nat == 0x4000_0000_0000_0000_0000_0000_0000_0000nat) by (nonlinear_arith);
}

/// `2^k` for the number `k` of bits that `p` has beyond 24.
fn rounding_step(p: u128) -> (r: u128)
    requires
        p < 0x400_0000_0000_0000_0000_0000_0000,
    ensures
        r == pow2(excess_bits(p as nat)),
        1 <= r,
        r == 1 || r * 0x80_0000 <= p,
{
    let mut q: u128 = p;
    let mut r: u128 = 1;
    let ghost mut k: nat = 0;
    proof {
        vstd::arithmetic::power2::lemma2_to64();
    }
    while q >= 0x100_0000
        invariant
            p < 0x400_0000_0000_0000_0000_0000_0000,
            excess_bits(p as nat) == k + excess_bits(q as nat),
            r == pow2(k),
            1 <= r,
            r * q <= p,
            r == 1 || q >= 0x80_0000,
        decreases q,
    {
        proof {
            assert(r * 0x100_0000 <= p) by (nonlinear_arith)
                requires
                    r * q <= p,
                    q >= 0x100_0000,
                    r >= 1,
            ;
            assert((r * 2) * (q / 2) <= p) by (nonlinear_arith)
                requires
                    r * q <= p,
                    r >= 1,
                    q >= 0,
            ;
            lemma_pow2_unfold(k + 1);
            k = k + 1;
        }
        q = q / 2;
        r = r * 2;
    }
    assert(r == 1 || r * 0x80_0000 <= p) by (nonlinear_arith)
        requires
            r * q <= p,
            r >= 1,
            r == 1 || q >= 0x80_0000,
    ;
    r
}

/// `n / d` to the nearest integer, ties to even.
fn divide_half_even(n: u128, d: u128) -> (r: u128)
    requires
        d > 0,
        n < u128::MAX,
    ensures
        r == half_even(n as nat, d as nat),
        r <= n / d + 1,
{
    let q: u128 = n / d;
    let rest: u128 = n % d;
    assert(q <= n) by (nonlinear_arith)
        requires
            q == n / d,
            d > 0,
    ;
    if rest < d - rest || (rest == d - rest && q % 2 == 0) {
        q
    } else {
        q + 1
    }
}

/// `n / d` rounded to 24 significant bits, ties to even.
fn round_ratio(n: u128, d: u128) -> (r: u128)
    requires
        0 < d < 0x4_0000_0000,
        n < 0x400_0000_0000_0000_0000_0000,
    ensures
        r == nearest(n as nat, d as nat),
        r <= 2 * (n / d) + 1,
{
    let whole: u128 = n / d;
    assert(whole <= n) by (nonlinear_arith)
        requires
            whole == n / d,
            d > 0,
    ;
    let step = rounding_step(whole);
    assert(d * step < 0x1_0000_0000_0000_0000_0000_0000_0000_0000) by (nonlinear_arith)
        requires
            d < 0x4_0000_0000,
            step <= 0x400_0000_0000_0000_0000_0000,
    ;
    assert(d * step > 0) by (nonlinear_arith)
        requires
            d > 0,
            step >= 1,
    ;
    let q = divide_half_even(n, d * step);
    proof {
        vstd::arithmetic::div_mod::lemma_div_denominator(n as int, d as int, step as int);
        assert(n as int / (d * step) == whole as int / step as int);
        let w = (whole / step) as int;
        assert(w * step <= whole) by (nonlinear_arith)
            requires
                w == (whole / step) as int,
                step >= 1,
                whole >= 0,
        ;
        assert(q * step <= whole + step) by (nonlinear_arith)
            requires
                q <= w + 1,
                w * step <= whole,
                step >= 1,
        ;
        if step != 1 {
            assert(step <= whole);
        }
    }
    q * step
}

impl Single {
    /// The number with this bit pattern.
    pub fn from_bits(bits: u32) -> (r: Self)
        ensures
            r.bits == bits,
    {
        Single { bits }
    }

    /// The bit pattern of the number.
    pub fn to_bits(self) -> (r: u32)
        ensures
            r == self.bits,
    {
        self.bits
    }

    /// Whether the number is neither infinite nor not a number.
    pub fn is_finite(self) -> (r: bool)
        ensures
            r == self.finite(),
    {
        (self.bits % 0x8000_0000) / 0x80_0000 < 255
    }

    fn is_nan(self) -> (r: bool)
        ensures
            r == self.nan(),
    {
        let m: u32 = self.bits % 0x8000_0000;
        m / 0x80_0000 == 255 && m % 0x80_0000 != 0
    }

    fn is_negative(self) -> (r: bool)
        ensures
            r == self.negative(),
    {
        self.bits >= 0x8000_0000
    }

    /// The significand and the shift.
    fn parts(self) -> (r: (u32, u32))
        ensures
            r.0 == self.significand(),
            r.1 == self.shift(),
            r.0 < 0x100_0000,
            r.1 <= 254,
    {
        let m: u32 = self.bits % 0x8000_0000;
        let e: u32 = m / 0x80_0000;
        let f: u32 = m % 0x80_0000;
        if e == 0 {
            (f, 0)
        } else {
            (0x80_0000 + f, e - 1)
        }
    }

    /// Whether `self < other`, which is false where either is not a number.
    pub fn lt(self, other: Single) -> (r: bool)
        ensures
            r == self.below(other),
    {
        if self.is_nan() || other.is_nan() {
            return false;
        }
        let a: u32 = self.bits % 0x8000_0000;
        let b: u32 = other.bits % 0x8000_0000;
        proof {
            lemma_units_ordered(self, other);
            lemma_units_ordered(other, self);
            lemma_units_zero(self);
            lemma_units_zero(other);
        }
        if self.is_negative() {
            if other.is_negative() {
                b < a
            } else {
                a > 0 || b > 0
            }
        } else if other.is_negative() {
            false
        } else {
            a < b
        }
    }
}

/// The absolute value is ordered as the magnitude bits are.
pub proof fn lemma_units_ordered(a: Single, b: Single)
    ensures
        a.magnitude_bits() < b.magnitude_bits() ==> a.units() < b.units(),
        a.magnitude_bits() == b.magnitude_bits() ==> a.units() == b.units(),
{
    let (sa, sb) = (a.significand(), b.significand());
    let (ha, hb) = (a.shift(), b.shift());
    lemma_pow2_pos(ha);
    lemma_pow2_pos(hb);
    if a.magnitude_bits() < b.magnitude_bits() {
        if ha == hb {
            assert(sa < sb);
            assert(sa * pow2(ha) < sb * pow2(hb)) by (nonlinear_arith)
                requires
                    sa < sb,
                    pow2(ha) == pow2(hb),
                    pow2(ha) > 0,
            ;
        } else {
            assert(ha < hb);
            assert(sa < 0x100_0000 && sb >= 0x80_0000);
            lemma_pow2_adds(ha, 1);
            vstd::arithmetic::power2::lemma2_to64();
            if ha + 1 < hb {
                lemma_pow2_strictly_increases(ha + 1, hb);
            }
            assert(sa * pow2(ha) < sb * pow2(hb)) by (nonlinear_arith)
                requires
                    sa < 0x100_0000,
                    sb >= 0x80_0000,
                    pow2(ha) > 0,
                    pow2(hb) >= 2 * pow2(ha),
            ;
        }
    }
}

/// The value is zero exactly where the magnitude bits are.
proof fn lemma_units_zero(a: Single)
    ensures
        a.units() == 0 <==> a.magnitude_bits() == 0,
{
    lemma_pow2_pos(a.shift());
    let (s, p) = (a.significand(), pow2(a.shift()));
    assert(s * p == 0 <==> s == 0) by (nonlinear_arith)
        requires
            p > 0,
            s >= 0,
    ;
}

impl Single {
    /// Equality as IEEE 754 has it: by value, and never of a number that is none.
    pub open spec fn equals(self, other: Single) -> bool {
        !self.nan() && !other.nan() && self.value() == other.value()
    }
}

impl PartialEq for Single {
    fn eq(&self, other: &Self) -> (r: bool) {
        if self.is_nan() || other.is_nan() {
            return false;
        }
        proof {
            lemma_units_ordered(*self, *other);
            lemma_units_ordered(*other, *self);
            lemma_units_zero(*self);
            lemma_units_zero(*other);
        }
        self.bits == other.bits || (self.bits % 0x8000_0000 == 0 && other.bits % 0x8000_0000 == 0)
    }
}

impl vstd::std_specs::cmp::PartialEqSpecImpl for Single {
    open spec fn obeys_eq_spec() -> bool {
        true
    }

    open spec fn eq_spec(&self, other: &Self) -> bool {
        self.equals(*other)
    }
}

// ---------------------------------------------------------------------------
// The operations
// ---------------------------------------------------------------------------

/// `x` rounded to 24 significant bits.
fn round_u32(x: u32) -> (r: u128)
    ensures
        r == as_single(x as nat),
        r <= 0x2_0000_0000,
        x > 0 ==> r > 0,
{
    let r = round_ratio(x as u128, 1);
    proof {
        let step = pow2(excess_bits(x as nat));
        lemma_nearest_positive(x as nat);
    }
    r
}

/// A positive number does not round to zero.
proof fn lemma_nearest_positive(x: nat)
    ensures
        x > 0 ==> nearest(x, 1) > 0,
{
    lemma_excess_small(x);
    let step = pow2(excess_bits(x));
    lemma_pow2_pos(excess_bits(x));
    if x > 0 {
        assert(x / 1 == x);
        assert(1 * step == step);
        assert(x / step >= 1) by (nonlinear_arith)
            requires
                step <= x,
                step > 0,
        ;
        assert(half_even(x, step) >= 1);
        assert(half_even(x, step) * step > 0) by (nonlinear_arith)
            requires
                half_even(x, step) >= 1,
                step > 0,
        ;
    }
}

proof fn lemma_excess_small(x: nat)
    ensures
        x > 0 ==> pow2(excess_bits(x)) <= x,
    decreases x,
{
    vstd::arithmetic::power2::lemma2_to64();
    if x >= 0x100_0000 {
        lemma_excess_small(x / 2);
        lemma_pow2_unfold(excess_bits(x));
    }
}

/// The product of `x` and `f`, with its shift.
fn multiply(x: u32, f: Single) -> (r: (u128, u32))
    ensures
        r.0 == product(x as nat, f),
        r.1 == f.shift(),
        r.0 <= 0x400_0000_0000_0000,
        r.1 <= 254,
        x > 0 && f.significand() > 0 ==> r.0 > 0,
{
    let a = round_u32(x);
    let (m, shift) = f.parts();
    assert(a * m < 0x200_0000_0000_0000) by (nonlinear_arith)
        requires
            a <= 0x2_0000_0000,
            m < 0x100_0000,
    ;
    let p: u128 = a * (m as u128);
    proof {
        lemma_nearest_positive(p as nat);
        assert(a > 0 && m > 0 ==> a * m > 0) by (nonlinear_arith);
    }
    (round_ratio(p, 1), shift)
}

/// `x * f` truncated to a `u32`, saturating; zero where it is negative or not a
/// number.
pub fn scale_down(x: u32, f: Single) -> (r: u32)
    ensures
        r == scaled_down(x, f),
{
    if f.is_nan() || f.is_negative() || x == 0 {
        return 0;
    }
    if !f.is_finite() {
        return u32::MAX;
    }
    let (n, shift) = multiply(x, f);
    saturate(n, shift, false)
}

/// `x * f` rounded to the nearest `u32`, ties away from zero, saturating; zero
/// where it is negative or not a number.
pub fn scale_nearest(x: u32, f: Single) -> (r: u32)
    ensures
        r == scaled_nearest(x, f),
{
    if f.is_nan() || f.is_negative() || x == 0 {
        return 0;
    }
    if !f.is_finite() {
        return u32::MAX;
    }
    let (n, shift) = multiply(x, f);
    saturate(n, shift, true)
}

/// `n * 2^(shift - 149)` rounded, down or to the nearest, and clamped to `u32`.
fn saturate(n: u128, shift: u32, to_nearest: bool) -> (r: u32)
    requires
        n <= 0x400_0000_0000_0000,
        shift <= 254,
    ensures
        to_nearest ==> r == saturated(round_units(n as nat, shift as nat)),
        !to_nearest ==> r == saturated(floor_units(n as nat, shift as nat)),
{
    if n == 0 {
        proof {
            lemma_zero_units(shift as nat);
        }
        return 0;
    }
    if shift >= 149 {
        let up: u32 = shift - 149;
        if up >= 32 {
            proof {
                lemma_pow2_pos(up as nat);
                if up > 32 {
                    lemma_pow2_strictly_increases(32, up as nat);
                }
                vstd::arithmetic::power2::lemma2_to64();
                assert(n * pow2(up as nat) >= 0x1_0000_0000) by (nonlinear_arith)
                    requires
                        n >= 1,
                        pow2(up as nat) >= 0x1_0000_0000,
                ;
            }
            return u32::MAX;
        }
        let by = two_to(up);
        proof {
            lemma_pow2_strictly_increases(up as nat, 32);
            vstd::arithmetic::power2::lemma2_to64();
            assert(n * by < 0x1_0000_0000_0000_0000_0000_0000) by (nonlinear_arith)
                requires
                    n <= 0x400_0000_0000_0000,
                    by < 0x1_0000_0000,
            ;
        }
        let v: u128 = n * by;
        if v > u32::MAX as u128 {
            u32::MAX
        } else {
            v as u32
        }
    } else {
        let down: u32 = 149 - shift;
        if down > 100 {
            proof {
                lemma_pow2_strictly_increases(60, (down - 1) as nat);
                lemma_pow2_unfold(down as nat);
                vstd::arithmetic::power2::lemma2_to64();
                vstd::arithmetic::power2::lemma2_to64_rest();
                let (half, d) = (pow2((down - 1) as nat) as int, pow2(down as nat) as int);
                let wide = n as int;
                assert(wide / d == 0 && (wide + half) / d == 0) by (nonlinear_arith)
                    requires
                        0 <= wide <= 0x400_0000_0000_0000,
                        half > 0x1000_0000_0000_0000,
                        d == 2 * half,
                ;
            }
            return 0;
        }
        let d = two_to(down);
        let half = two_to(down - 1);
        proof {
            lemma_pow2_bound((down - 1) as nat, 126);
        }
        let v: u128 = if to_nearest {
            (n + half) / d
        } else {
            n / d
        };
        if v > u32::MAX as u128 {
            u32::MAX
        } else {
            v as u32
        }
    }
}

proof fn lemma_zero_units(shift: nat)
    requires
        shift <= 254,
    ensures
        round_units(0, shift) == 0,
        floor_units(0, shift) == 0,
{
    if shift < 149 {
        let down = (149 - shift) as nat;
        lemma_pow2_pos((down - 1) as nat);
        lemma_pow2_unfold(down);
        let (half, d) = (pow2((down - 1) as nat) as int, pow2(down) as int);
        assert(half / d == 0 && 0int / d == 0) by (nonlinear_arith)
            requires
                half > 0,
                d == 2 * half,
        ;
    } else {
        assert(0 * pow2((shift - 149) as nat) == 0) by (nonlinear_arith);
    }
}

/// Whether the single-precision quotient `a / b` is below `t`.
pub fn quotient_lt(a: u32, b: u32, t: Single) -> (r: bool)
    requires
        b > 0,
    ensures
        r == quotient_below(a, b, t),
{
    if t.is_nan() {
        return false;
    }
    let up = two_to(56);
    let na = round_u32(a);
    let nb = round_u32(b);
    proof {
        vstd::arithmetic::power2::lemma2_to64();
        vstd::arithmetic::power2::lemma2_to64_rest();
        assert(na * up <= 0x200_0000_0000_0000_0000_0000) by (nonlinear_arith)
            requires
                na <= 0x2_0000_0000,
                up == 0x100_0000_0000_0000,
        ;
    }
    let n: u128 = na * up;
    let q = round_ratio(n, nb);
    proof {
        let w = n / nb;
        assert(w <= n) by (nonlinear_arith)
            requires
                w == n / nb,
                nb > 0,
        ;
        assert(q <= 0x800_0000_0000_0000_0000_0000);
        lemma_pow2_pos(93);
        assert(q * pow2(93) >= 0) by (nonlinear_arith);
    }
    if t.is_negative() {
        return false;
    }
    let (m, shift) = t.parts();
    assert(quotient_below(a, b, t) <==> q * pow2(93) < m * pow2(shift as nat));
    if shift <= 93 {
        let gap: u32 = 93 - shift;
        proof {
            lemma_pow2_adds(gap as nat, shift as nat);
            lemma_pow2_pos(shift as nat);
            lemma_pow2_pos(gap as nat);
            let (x, y) = (pow2(gap as nat) as int, pow2(shift as nat) as int);
            let (qi, mi) = (q as int, m as int);
            assert(qi * (x * y) < mi * y <==> qi * x < mi) by (nonlinear_arith)
                requires
                    y > 0,
                    qi >= 0,
                    x > 0,
            ;
        }
        if gap >= 24 {
            proof {
                if gap > 24 {
                    lemma_pow2_strictly_increases(24, gap as nat);
                }
                let (x, qi) = (pow2(gap as nat) as int, q as int);
                assert(qi >= 1 ==> qi * x >= 0x100_0000) by (nonlinear_arith)
                    requires
                        x >= 0x100_0000,
                ;
                assert(qi == 0 ==> qi * x == 0) by (nonlinear_arith);
            }
            q == 0 && m > 0
        } else {
            let by = two_to(gap);
            proof {
                lemma_pow2_strictly_increases(gap as nat, 24);
                assert(q * by < 0x800_0000_0000_0000_0000_0000_00_0000) by (nonlinear_arith)
                    requires
                        q <= 0x800_0000_0000_0000_0000_0000,
                        by < 0x100_0000,
                ;
            }
            q * by < m as u128
        }
    } else {
        let gap: u32 = shift - 93;
        proof {
            lemma_pow2_adds(gap as nat, 93);
            lemma_pow2_pos(93);
            let (x, y) = (pow2(gap as nat) as int, pow2(93) as int);
            let (qi, mi) = (q as int, m as int);
            assert(qi * y < mi * (x * y) <==> qi < mi * x) by (nonlinear_arith)
                requires
                    y > 0,
            ;
            assert(m >= 0x80_0000);
        }
        if gap >= 90 {
            proof {
                if gap > 90 {
                    lemma_pow2_strictly_increases(90, gap as nat);
                }
                lemma_pow2_adds(60, 30);
                assert(0x1000_0000_0000_0000int * 0x4000_0000int == 0x400_0000_0000_0000_0000_0000int)
                    by (nonlinear_arith);
                let (x, mi) = (pow2(gap as nat) as int, m as int);
                assert(mi * x > 0x800_0000_0000_0000_0000_0000) by (nonlinear_arith)
                    requires
                        mi >= 0x80_0000,
                        x >= 0x400_0000_0000_0000_0000_0000,
                ;
            }
            true
        } else {
            let by = two_to(gap);
            proof {
                lemma_pow2_strictly_increases(gap as nat, 90);
                lemma_pow2_adds(60, 30);
                assert(0x1000_0000_0000_0000int * 0x4000_0000int == 0x400_0000_0000_0000_0000_0000int)
                    by (nonlinear_arith);
                assert(m * by < 0x400_0000_0000_0000_0000_0000_00_0000) by (nonlinear_arith)
                    requires
                        m < 0x100_0000,
                        by < 0x400_0000_0000_0000_0000_0000,
                ;
            }
            q < (m as u128) * by
        }
    }
}

// ---------------------------------------------------------------------------
// Order
// ---------------------------------------------------------------------------

proof fn lemma_excess_bounds(p: nat)
    ensures
        p < 0x100_0000 * pow2(excess_bits(p)),
        excess_bits(p) > 0 ==> 0x80_0000 * pow2(excess_bits(p)) <= p,
    decreases p,
{
    vstd::arithmetic::power2::lemma2_to64();
    if p >= 0x100_0000 {
        let h = p / 2;
        let e = excess_bits(h);
        lemma_excess_bounds(h);
        lemma_pow2_adds(e, 1);
        assert(pow2(e + 1) == pow2(e) * 2);
        assert(p < 0x100_0000 * pow2(e + 1));
        if e == 0 {
            assert(h >= 0x80_0000);
        }
    }
}

proof fn lemma_excess_monotone(p: nat, q: nat)
    requires
        p <= q,
    ensures
        excess_bits(p) <= excess_bits(q),
    decreases q,
{
    if p >= 0x100_0000 {
        lemma_excess_monotone(p / 2, q / 2);
    }
}

proof fn lemma_half_even_monotone(n: nat, m: nat, d: nat)
    requires
        n <= m,
        d > 0,
    ensures
        half_even(n, d) <= half_even(m, d),
        n / d <= half_even(n, d) <= n / d + 1,
{
    vstd::arithmetic::div_mod::lemma_div_is_ordered(n as int, m as int, d as int);
    vstd::arithmetic::div_mod::lemma_fundamental_div_mod(n as int, d as int);
    vstd::arithmetic::div_mod::lemma_fundamental_div_mod(m as int, d as int);
    if n / d == m / d {
        assert(d * (n / d) == d * (m / d));
    }
}

/// How `nearest` lies between powers of two.
proof fn lemma_nearest_bounds(n: nat, d: nat)
    requires
        d > 0,
    ensures
        nearest(n, d) <= 0x100_0000 * pow2(excess_bits(n / d)),
        excess_bits(n / d) > 0 ==> 0x80_0000 * pow2(excess_bits(n / d)) <= nearest(n, d),
{
    let p = n / d;
    let step = pow2(excess_bits(p));
    lemma_pow2_pos(excess_bits(p));
    lemma_excess_bounds(p);
    vstd::arithmetic::div_mod::lemma_div_denominator(n as int, d as int, step as int);
    assert(d * step > 0) by (nonlinear_arith)
        requires
            d > 0,
            step > 0,
    ;
    lemma_half_even_monotone(n, n, (d * step) as nat);
    let q = n / ((d * step) as nat);
    assert(q == p / step);
    assert(q < 0x100_0000) by (nonlinear_arith)
        requires
            q == p / step,
            p < 0x100_0000 * step,
            step > 0,
    ;
    let h = half_even(n, (d * step) as nat);
    assert(h * step <= 0x100_0000 * step) by (nonlinear_arith)
        requires
            h <= 0x100_0000,
            step > 0,
    ;
    if excess_bits(p) > 0 {
        assert(q >= 0x80_0000) by (nonlinear_arith)
            requires
                q == p / step,
                p >= 0x80_0000 * step,
                step > 0,
        ;
        assert(0x80_0000 * step <= h * step) by (nonlinear_arith)
            requires
                h >= 0x80_0000,
                step > 0,
        ;
    }
}

/// Rounding keeps the order.
pub proof fn nearest_is_monotone(n: nat, m: nat, d: nat)
    requires
        n <= m,
        d > 0,
    ensures
        nearest(n, d) <= nearest(m, d),
{
    vstd::arithmetic::div_mod::lemma_div_is_ordered(n as int, m as int, d as int);
    let e = excess_bits(n / d);
    let f = excess_bits(m / d);
    lemma_excess_monotone(n / d, m / d);
    lemma_pow2_pos(e);
    lemma_pow2_pos(f);
    if e == f {
        let step = pow2(e);
        assert(d * step > 0) by (nonlinear_arith)
            requires
                d > 0,
                step > 0,
        ;
        lemma_half_even_monotone(n, m, (d * step) as nat);
        let (a, b) = (half_even(n, (d * step) as nat), half_even(m, (d * step) as nat));
        assert(a * step <= b * step) by (nonlinear_arith)
            requires
                a <= b,
                step > 0,
        ;
    } else {
        lemma_nearest_bounds(n, d);
        lemma_nearest_bounds(m, d);
        vstd::arithmetic::power2::lemma2_to64();
        lemma_pow2_adds(e, 1);
        lemma_pow2_adds(e + 1, (f - e - 1) as nat);
        let rest = pow2((f - e - 1) as nat);
        lemma_pow2_pos((f - e - 1) as nat);
        assert(pow2(f) >= pow2(e) * 2) by (nonlinear_arith)
            requires
                pow2(f) == pow2(e) * 2 * rest,
                rest >= 1,
                pow2(e) > 0,
        ;
    }
}

/// A larger number has the larger quotient.
pub proof fn quotient_is_monotone(a: nat, b: nat, c: nat)
    requires
        a <= b,
        c > 0,
    ensures
        quotient(a, c) <= quotient(b, c),
{
    nearest_is_monotone(a, b, 1);
    lemma_nearest_positive(c);
    lemma_pow2_pos(56);
    assert(as_single(a) * pow2(56) <= as_single(b) * pow2(56)) by (nonlinear_arith)
        requires
            as_single(a) <= as_single(b),
            pow2(56) > 0,
    ;
    nearest_is_monotone((as_single(a) * pow2(56)) as nat, (as_single(b) * pow2(56)) as nat, as_single(c));
}

// ---------------------------------------------------------------------------
// Scaling
// ---------------------------------------------------------------------------

/// What rounding comes to where nothing is divided.
proof fn lemma_nearest_whole(x: nat)
    ensures
        nearest(x, 1) == half_even(x, pow2(excess_bits(x))) * pow2(excess_bits(x)),
        x < 0x100_0000 ==> nearest(x, 1) == x,
{
    vstd::arithmetic::power2::lemma2_to64();
    let step = pow2(excess_bits(x));
    assert(x / 1 == x);
    assert(1 * step == step);
    if x < 0x100_0000 {
        assert(step == 1);
        assert(half_even(x, 1) == x);
        assert(x * 1 == x);
    }
}

/// Twice a number rounds to twice what the number rounds to.
proof fn lemma_nearest_doubles(x: nat)
    ensures
        nearest(2 * x, 1) == 2 * nearest(x, 1),
{
    vstd::arithmetic::power2::lemma2_to64();
    let e = excess_bits(x);
    let step = pow2(e);
    lemma_pow2_pos(e);
    lemma_nearest_whole(x);
    lemma_nearest_whole(2 * x);
    if 2 * x < 0x100_0000 {
    } else {
        assert((2 * x) / 2 == x);
        assert(excess_bits(2 * x) == 1 + e);
        lemma_pow2_unfold(e + 1);
        assert(pow2(e + 1) == 2 * step);
        vstd::arithmetic::div_mod::lemma_fundamental_div_mod(x as int, step as int);
        let (q, r) = (x / step, x % step);
        assert(2 * x == (2 * step) * q + 2 * r) by (nonlinear_arith)
            requires
                x == step * q + r,
        ;
        vstd::arithmetic::div_mod::lemma_fundamental_div_mod_converse(
            (2 * x) as int,
            (2 * step) as int,
            q as int,
            (2 * r) as int,
        );
        let h = half_even(x, step);
        assert(half_even(2 * x, 2 * step) == h);
        assert(h * (2 * step) == 2 * (h * step)) by (nonlinear_arith);
    }
}

/// Rounding commutes with a power of two.
proof fn lemma_nearest_scales(x: nat, k: nat)
    ensures
        nearest(x * pow2(k), 1) == nearest(x, 1) * pow2(k),
    decreases k,
{
    vstd::arithmetic::power2::lemma2_to64();
    if k == 0 {
        assert(x * pow2(0) == x);
    } else {
        let half = pow2((k - 1) as nat);
        lemma_pow2_unfold(k);
        lemma_nearest_scales(x, (k - 1) as nat);
        let y = x * half;
        lemma_nearest_doubles(y);
        assert(x * pow2(k) == 2 * y) by (nonlinear_arith)
            requires
                pow2(k) == 2 * half,
                y == x * half,
        ;
        let n = nearest(x, 1);
        assert(n * pow2(k) == 2 * (n * half)) by (nonlinear_arith)
            requires
                pow2(k) == 2 * half,
        ;
    }
}

/// A number of up to 24 bits is a single-precision number as it is.
pub proof fn small_numbers_are_exact(x: nat)
    requires
        x <= 0x100_0000,
    ensures
        as_single(x) == x,
{
    lemma_nearest_whole(x);
    if x == 0x100_0000 {
        lemma_nearest_whole(0x80_0000);
        lemma_nearest_doubles(0x80_0000);
    }
}

/// What is rounded once needs no more rounding.
proof fn lemma_nearest_is_idempotent(x: nat)
    ensures
        nearest(nearest(x, 1), 1) == nearest(x, 1),
{
    let e = excess_bits(x);
    let step = pow2(e);
    lemma_pow2_pos(e);
    lemma_nearest_bounds(x, 1);
    lemma_nearest_whole(x);
    assert(x / 1 == x);
    let h = half_even(x, step);
    assert(h <= 0x100_0000) by (nonlinear_arith)
        requires
            h * step <= 0x100_0000 * step,
            step > 0,
    ;
    small_numbers_are_exact(h);
    lemma_nearest_scales(h, e);
}

/// `m` units of 2^-149 to the nearest integer, ties away from zero.
pub open spec fn round_value(m: nat) -> nat {
    (m + pow2(148)) / pow2(149)
}

/// The nearest integer does not depend on how a number of units is split into a
/// product with a power of two.
proof fn lemma_round_units(n: nat, shift: nat)
    ensures
        round_units(n, shift) == round_value(n * pow2(shift)),
{
    let m = n * pow2(shift);
    let unit = pow2(149);
    lemma_pow2_pos(149);
    lemma_pow2_pos(148);
    lemma_pow2_unfold(149);
    if shift >= 149 {
        let up = pow2((shift - 149) as nat);
        lemma_pow2_adds((shift - 149) as nat, 149);
        let w = n * up;
        assert(m == w * unit) by (nonlinear_arith)
            requires
                m == n * pow2(shift),
                pow2(shift) == up * unit,
                w == n * up,
        ;
        assert(m + pow2(148) == unit * w + pow2(148)) by (nonlinear_arith)
            requires
                m == w * unit,
        ;
        vstd::arithmetic::div_mod::lemma_fundamental_div_mod_converse(
            (m + pow2(148)) as int,
            unit as int,
            w as int,
            pow2(148) as int,
        );
    } else {
        let low = pow2(shift);
        let half = pow2((148 - shift) as nat);
        let down = pow2((149 - shift) as nat);
        lemma_pow2_pos(shift);
        lemma_pow2_pos((149 - shift) as nat);
        lemma_pow2_adds(shift, (148 - shift) as nat);
        lemma_pow2_adds(shift, (149 - shift) as nat);
        assert(m + pow2(148) == low * (n + half)) by (nonlinear_arith)
            requires
                m == n * low,
                pow2(148) == low * half,
        ;
        let top = n + half;
        vstd::arithmetic::div_mod::lemma_div_denominator((low * top) as int, low as int, down as int);
        vstd::arithmetic::div_mod::lemma_div_multiples_vanish(top as int, low as int);
        assert((low * top) / low == top);
        assert((low * top) / (low * down) == top / down);
    }
}

/// A product of a finite number, to the nearest integer, is that of the units.
proof fn lemma_scaled_units(x: nat, f: Single)
    ensures
        round_units(product(x, f), f.shift()) == round_value(
            nearest(as_single(x) * f.units(), 1),
        ),
{
    let a = as_single(x);
    let (m, p) = (f.significand(), pow2(f.shift()));
    lemma_round_units(product(x, f), f.shift());
    lemma_nearest_scales(a * m, f.shift());
    assert((a * m) * p == a * (m * p)) by (nonlinear_arith);
}

/// A larger number scales to at least as much.
pub proof fn scaling_is_monotone(x: u32, f: Single, g: Single)
    requires
        !f.nan(),
        !g.nan(),
        f.value() <= g.value(),
    ensures
        scaled_nearest(x, f) <= scaled_nearest(x, g),
{
    lemma_units_ordered(f, g);
    lemma_units_ordered(g, f);
    let a = as_single(x as nat);
    lemma_scaled_units(x as nat, f);
    lemma_scaled_units(x as nat, g);
    lemma_pow2_pos(149);
    if f.negative() || x == 0 {
    } else if g.negative() {
        assert(f.units() == 0);
        lemma_round_nothing(x, f);
    } else {
        assert(f.units() <= g.units());
        if f.finite() && g.finite() {
            assert(a * f.units() <= a * g.units()) by (nonlinear_arith)
                requires
                    f.units() <= g.units(),
                    a >= 0,
            ;
            nearest_is_monotone(a * f.units(), a * g.units(), 1);
            vstd::arithmetic::div_mod::lemma_div_is_ordered(
                (nearest(a * f.units(), 1) + pow2(148)) as int,
                (nearest(a * g.units(), 1) + pow2(148)) as int,
                pow2(149) as int,
            );
        } else if !f.finite() {
            assert(f.magnitude_bits() <= g.magnitude_bits());
        }
    }
}

/// Zero times anything is nothing.
proof fn lemma_round_nothing(x: u32, f: Single)
    requires
        f.units() == 0,
        !f.nan(),
    ensures
        scaled_nearest(x, f) == 0,
{
    let a = as_single(x as nat);
    lemma_units_zero(f);
    lemma_scaled_units(x as nat, f);
    small_numbers_are_exact(0);
    assert(a * f.units() == 0) by (nonlinear_arith)
        requires
            f.units() == 0,
    ;
    lemma_pow2_pos(148);
    lemma_pow2_unfold(149);
    vstd::arithmetic::div_mod::lemma_basic_div(pow2(148) as int, pow2(149) as int);
}

/// Zero scales everything to nothing.
pub proof fn scaling_by_zero(x: u32, f: Single)
    requires
        !f.nan(),
        f.value() == 0,
    ensures
        scaled_nearest(x, f) == 0,
{
    lemma_round_nothing(x, f);
}

/// One scales a number to itself, as far as single precision can hold it.
pub proof fn scaling_by_one(x: u32, f: Single)
    requires
        !f.nan(),
        f.value() == (Single { bits: 0x3f80_0000 }).value(),
    ensures
        scaled_nearest(x, f) == saturated(as_single(x as nat)),
{
    let one = Single { bits: 0x3f80_0000 };
    let a = as_single(x as nat);
    vstd::arithmetic::power2::lemma2_to64();
    assert(one.exponent_field() == 127);
    assert(one.significand() == 0x80_0000);
    lemma_pow2_adds(23, 126);
    let unit = pow2(149);
    lemma_pow2_pos(149);
    assert(one.units() == unit);
    lemma_units_ordered(f, one);
    lemma_units_ordered(one, f);
    assert(!f.negative());
    assert(f.units() == unit);
    assert(f.magnitude_bits() == one.magnitude_bits());
    lemma_scaled_units(x as nat, f);
    lemma_nearest_scales(a, 149);
    lemma_nearest_is_idempotent(x as nat);
    lemma_pow2_pos(148);
    lemma_pow2_unfold(149);
    assert(a * unit + pow2(148) == unit * a + pow2(148)) by (nonlinear_arith);
    vstd::arithmetic::div_mod::lemma_fundamental_div_mod_converse(
        (a * unit + pow2(148)) as int,
        unit as int,
        a as int,
        pow2(148) as int,
    );
    small_numbers_are_exact(0);
}

// ---------------------------------------------------------------------------
// Accuracy
// ---------------------------------------------------------------------------

/// What a number is rounded to lies within half a step of it.
proof fn lemma_half_even_error(n: nat, d: nat)
    requires
        d > 0,
    ensures
        2 * n <= 2 * (half_even(n, d) * d) + d,
        2 * (half_even(n, d) * d) <= 2 * n + d,
{
    vstd::arithmetic::div_mod::lemma_fundamental_div_mod(n as int, d as int);
    let (q, r) = (n / d, n % d);
    assert(n == q * d + r) by (nonlinear_arith)
        requires
            n == d * q + r,
    ;
    assert((q + 1) * d == q * d + d) by (nonlinear_arith);
}

/// A ratio of at least 24 bits is rounded with an error of at most one part in
/// 2^24.
proof fn lemma_nearest_error(n: nat, d: nat)
    requires
        d > 0,
        excess_bits(n / d) > 0,
    ensures
        nearest(n, d) * d * 0x100_0000 <= n * 0x100_0001,
        nearest(n, d) * d * 0x100_0000 >= n * 0xff_ffff,
{
    let p = n / d;
    let step = pow2(excess_bits(p));
    lemma_pow2_pos(excess_bits(p));
    lemma_excess_bounds(p);
    let unit = d * step;
    assert(unit > 0) by (nonlinear_arith)
        requires
            d > 0,
            step > 0,
            unit == d * step,
    ;
    vstd::arithmetic::div_mod::lemma_fundamental_div_mod(n as int, d as int);
    assert(unit * 0x80_0000 <= n) by (nonlinear_arith)
        requires
            unit == d * step,
            0x80_0000 * step <= p,
            n >= d * p,
            d > 0,
    ;
    lemma_half_even_error(n, unit);
    let h = half_even(n, unit);
    assert(nearest(n, d) * d == h * unit) by (nonlinear_arith)
        requires
            nearest(n, d) == h * step,
            unit == d * step,
    ;
}

/// A whole number is rounded with an error of at most one part in 2^24.
pub proof fn rounding_is_accurate(x: nat)
    ensures
        as_single(x) * 0x100_0000 <= x * 0x100_0001,
        as_single(x) * 0x100_0000 >= x * 0xff_ffff,
{
    if x < 0x100_0000 {
        small_numbers_are_exact(x);
    } else {
        assert(x / 1 == x);
        lemma_nearest_error(x, 1);
        assert(nearest(x, 1) * 1 == nearest(x, 1));
    }
}

/// The product of `x` and `f` in units of 2^-149, as it is computed: within one
/// part in 2^22 of the true one.
proof fn lemma_product_accurate(x: nat, f: Single)
    ensures
        product(x, f) * pow2(f.shift()) * 0x40_0000 <= x * f.units() * 0x40_0001,
        product(x, f) * pow2(f.shift()) * 0x40_0000 >= x * f.units() * 0x3f_ffff,
{
    let a = as_single(x);
    let (m, u) = (f.significand(), pow2(f.shift()));
    let n = product(x, f);
    rounding_is_accurate(x);
    rounding_is_accurate(a * m);
    assert(n * 0x100_0000 * 0x100_0000 <= x * m * (0x100_0001 * 0x100_0001)) by (nonlinear_arith)
        requires
            n * 0x100_0000 <= (a * m) * 0x100_0001,
            a * 0x100_0000 <= x * 0x100_0001,
            m >= 0,
    ;
    assert(n * 0x100_0000 * 0x100_0000 >= x * m * (0xff_ffff * 0xff_ffff)) by (nonlinear_arith)
        requires
            n * 0x100_0000 >= (a * m) * 0xff_ffff,
            a * 0x100_0000 >= x * 0xff_ffff,
            m >= 0,
    ;
    let y = x * m;
    assert(y >= 0) by (nonlinear_arith)
        requires
            y == x * m,
    ;
    assert(n * 0x40_0000 <= y * 0x40_0001) by (nonlinear_arith)
        requires
            n * 0x100_0000 * 0x100_0000 <= y * (0x100_0001 * 0x100_0001),
            y >= 0,
            n >= 0,
    ;
    assert(n * 0x40_0000 >= y * 0x3f_ffff) by (nonlinear_arith)
        requires
            n * 0x100_0000 * 0x100_0000 >= y * (0xff_ffff * 0xff_ffff),
            y >= 0,
            n >= 0,
    ;
    assert(x * (m * u) == y * u) by (nonlinear_arith)
        requires
            y == x * m,
    ;
    assert(n * u * 0x40_0000 <= y * u * 0x40_0001) by (nonlinear_arith)
        requires
            n * 0x40_0000 <= y * 0x40_0001,
            u >= 0,
    ;
    assert(n * u * 0x40_0000 >= y * u * 0x3f_ffff) by (nonlinear_arith)
        requires
            n * 0x40_0000 >= y * 0x3f_ffff,
            u >= 0,
    ;
}

/// A number of units is rounded down to whole numbers.
proof fn lemma_floor_units(n: nat, shift: nat)
    ensures
        floor_units(n, shift) * pow2(149) <= n * pow2(shift),
        n * pow2(shift) < (floor_units(n, shift) + 1) * pow2(149),
{
    let unit = pow2(149);
    lemma_pow2_pos(149);
    lemma_pow2_pos(shift);
    let r = floor_units(n, shift);
    if shift >= 149 {
        let up = pow2((shift - 149) as nat);
        lemma_pow2_adds((shift - 149) as nat, 149);
        assert(r * unit == n * pow2(shift)) by (nonlinear_arith)
            requires
                r == n * up,
                pow2(shift) == up * unit,
        ;
        assert(r * unit < (r + 1) * unit) by (nonlinear_arith)
            requires
                unit > 0,
        ;
    } else {
        let down = pow2((149 - shift) as nat);
        let low = pow2(shift);
        lemma_pow2_pos((149 - shift) as nat);
        lemma_pow2_adds((149 - shift) as nat, shift);
        vstd::arithmetic::div_mod::lemma_fundamental_div_mod(n as int, down as int);
        let rest = n % down;
        assert(r * unit <= n * low && n * low < (r + 1) * unit) by (nonlinear_arith)
            requires
                n == down * r + rest,
                0 <= rest < down,
                unit == down * low,
                low > 0,
        ;
    }
}

/// To scale a number is to multiply it: up to one part in 2^22, the result is the
/// product with the factor's value, rounded down, unless it does not fit.
#[verifier::spinoff_prover]
pub proof fn scaling_down_multiplies(x: u32, f: Single)
    requires
        f.finite(),
        !f.negative(),
    ensures
        ({
            let r = scaled_down(x, f);
            &&& r * pow2(149) * 0x40_0000 <= x * f.value() * 0x40_0001
            &&& r < u32::MAX ==> (r + 1) * pow2(149) * 0x40_0000 > x * f.value() * 0x3f_ffff
        }),
{
    lemma_pow2_pos(149);
    let unit = pow2(149);
    let r = scaled_down(x, f);
    let p = x * f.value();
    if x == 0 {
        assert(p == 0) by (nonlinear_arith)
            requires
                x == 0,
                p == x * f.value(),
        ;
    } else {
        lemma_product_accurate(x as nat, f);
        lemma_floor_units(product(x as nat, f), f.shift());
        let whole = floor_units(product(x as nat, f), f.shift());
        let made = product(x as nat, f) * pow2(f.shift());
        assert(r * unit <= whole * unit) by (nonlinear_arith)
            requires
                r <= whole,
                unit > 0,
        ;
    }
}

/// To scale a number to the nearest is to multiply it: up to one part in 2^22,
/// the result lies within one half of the product with the factor's value, unless
/// it does not fit.
#[verifier::spinoff_prover]
pub proof fn scaling_to_nearest_multiplies(x: u32, f: Single)
    requires
        f.finite(),
        !f.negative(),
    ensures
        ({
            let r = scaled_nearest(x, f);
            &&& (2 * r - 1) * pow2(149) * 0x40_0000 <= 2 * (x * f.value()) * 0x40_0001
            &&& r < u32::MAX ==> (2 * r + 1) * pow2(149) * 0x40_0000 > 2 * (x * f.value())
                * 0x3f_ffff
        }),
{
    lemma_pow2_pos(149);
    lemma_pow2_pos(148);
    lemma_pow2_unfold(149);
    let unit = pow2(149);
    let r = scaled_nearest(x, f);
    let p = x * f.value();
    if x == 0 {
        assert(p == 0) by (nonlinear_arith)
            requires
                x == 0,
                p == x * f.value(),
        ;
        assert(r == 0);
        assert((2 * r - 1) * unit * 0x40_0000 <= 2 * p * 0x40_0001 && (2 * r + 1) * unit * 0x40_0000
            > 2 * p * 0x3f_ffff) by (nonlinear_arith)
            requires
                r == 0,
                p == 0,
                unit > 0,
        ;
    } else {
        lemma_product_accurate(x as nat, f);
        let n = product(x as nat, f);
        lemma_round_units(n, f.shift());
        let made = n * pow2(f.shift());
        let whole = round_value(made);
        vstd::arithmetic::div_mod::lemma_fundamental_div_mod((made + pow2(148)) as int, unit as int);
        let rest = (made + pow2(148)) % unit;
        assert(2 * (whole * unit) + 2 * rest == 2 * made + unit) by (nonlinear_arith)
            requires
                made + pow2(148) == unit * whole + rest,
                unit == 2 * pow2(148),
        ;
        assert((2 * whole - 1) * unit <= 2 * made) by (nonlinear_arith)
            requires
                2 * (whole * unit) + 2 * rest == 2 * made + unit,
                rest >= 0,
        ;
        assert((2 * whole + 1) * unit > 2 * made) by (nonlinear_arith)
            requires
                2 * (whole * unit) + 2 * rest == 2 * made + unit,
                rest < unit,
        ;
        assert((2 * r - 1) * unit <= (2 * whole - 1) * unit) by (nonlinear_arith)
            requires
                r <= whole,
                unit > 0,
        ;
        assert((2 * r - 1) * unit * 0x40_0000 <= 2 * p * 0x40_0001) by (nonlinear_arith)
            requires
                (2 * r - 1) * unit <= 2 * made,
                made * 0x40_0000 <= p * 0x40_0001,
        ;
        if r < u32::MAX {
            assert((2 * r + 1) * unit * 0x40_0000 > 2 * p * 0x3f_ffff) by (nonlinear_arith)
                requires
                    (2 * r + 1) * unit > 2 * made,
                    made * 0x40_0000 >= p * 0x3f_ffff,
            ;
        }
    }
}

/// To hold a quotient against a threshold is to hold the dividend against the
/// threshold's share of the divisor: wherever they differ by more than one part
/// in 2^21, the verdict is the true one.
#[verifier::spinoff_prover]
pub proof fn quotients_are_held_against_the_share(a: u32, b: u32, t: Single)
    requires
        b > 0,
        t.finite(),
        !t.negative(),
    ensures
        a * pow2(149) * 0x20_0001 < t.value() * b * 0x20_0000 ==> quotient_below(a, b, t),
        a * pow2(149) * 0x1f_ffff >= t.value() * b * 0x20_0000 ==> !quotient_below(a, b, t),
{
    lemma_pow2_pos(149);
    lemma_pow2_pos(93);
    lemma_pow2_pos(56);
    lemma_pow2_adds(56, 93);
    let q = quotient(a as nat, b as nat);
    let (x, y) = (as_single(a as nat), as_single(b as nat));
    let (s, c) = (pow2(56), pow2(93));
    rounding_is_accurate(a as nat);
    rounding_is_accurate(b as nat);
    lemma_nearest_positive(b as nat);
    lemma_nearest_positive(a as nat);
    let v = t.value();
    lemma_quotient_accurate(a as nat, b as nat);
    assert((q * c) * (b * 0x20_0000) <= a * pow2(149) * 0x20_0001) by (nonlinear_arith)
        requires
            q * b * 0x20_0000 <= a * s * 0x20_0001,
            pow2(149) == s * c,
            c > 0,
    ;
    assert((q * c) * (b * 0x20_0000) >= a * pow2(149) * 0x1f_ffff) by (nonlinear_arith)
        requires
            q * b * 0x20_0000 >= a * s * 0x1f_ffff,
            pow2(149) == s * c,
            c > 0,
    ;
    let k = b * 0x20_0000;
    assert(v * b * 0x20_0000 == v * k) by (nonlinear_arith)
        requires
            k == b * 0x20_0000,
    ;
    let w = q * c;
    assert(w * k < v * k ==> w < v) by (nonlinear_arith)
        requires
            k > 0,
    ;
    assert(w * k >= v * k ==> w >= v) by (nonlinear_arith)
        requires
            k > 0,
    ;
}

proof fn lemma_quotient_accurate(a: nat, b: nat)
    requires
        a <= u32::MAX,
        0 < b <= u32::MAX,
    ensures
        quotient(a, b) * b * 0x20_0000 <= a * pow2(56) * 0x20_0001,
        quotient(a, b) * b * 0x20_0000 >= a * pow2(56) * 0x1f_ffff,
{
    let q = quotient(a, b);
    let (x, y) = (as_single(a), as_single(b));
    let s = pow2(56);
    vstd::arithmetic::power2::lemma2_to64();
    vstd::arithmetic::power2::lemma2_to64_rest();
    lemma_pow2_pos(56);
    rounding_is_accurate(a);
    rounding_is_accurate(b);
    lemma_nearest_positive(b);
    lemma_nearest_positive(a);
    let n = x * s;
    if a == 0 {
        small_numbers_are_exact(0);
        assert(n == 0) by (nonlinear_arith)
            requires
                x == 0,
                n == x * s,
        ;
        vstd::arithmetic::div_mod::lemma_div_of0(y as int);
        lemma_half_even_error(0, y);
        assert(excess_bits(0) == 0);
        assert(y * 1 == y);
        assert(0nat / y == 0 && 0nat % y == 0) by (nonlinear_arith)
            requires
                y > 0,
        ;
        assert(half_even(0, y) == 0);
        assert(q == 0);
        assert(q * b == 0 && a * s == 0) by (nonlinear_arith)
            requires
                q == 0,
                a == 0,
        ;
    } else {
        small_numbers_are_exact(1);
        lemma_nearest_scales(1, 32);
        nearest_is_monotone(b, 0x1_0000_0000, 1);
        assert(y <= 0x1_0000_0000);
        assert(0x100_0000 * y <= n) by (nonlinear_arith)
            requires
                n == x * s,
                x >= 1,
                s == 0x100_0000_0000_0000,
                0 < y <= 0x1_0000_0000,
        ;
        vstd::arithmetic::div_mod::lemma_div_is_ordered(
            (0x100_0000 * y) as int,
            n as int,
            y as int,
        );
        vstd::arithmetic::div_mod::lemma_div_by_multiple(0x100_0000, y as int);
        lemma_nearest_error(n, y);
        // q * y is about n = x * s; x is about a, y about b.
        assert(q * b * 0xff_ffff * 0x100_0000 <= q * y * 0x100_0000 * 0x100_0000) by (
        nonlinear_arith)
            requires
                b * 0xff_ffff <= y * 0x100_0000,
                q >= 0,
        ;
        assert(q * b * 0x100_0001 * 0x100_0000 >= q * y * 0x100_0000 * 0x100_0000) by (
        nonlinear_arith)
            requires
                b * 0x100_0001 >= y * 0x100_0000,
                q >= 0,
        ;
        assert(n * 0x100_0000 <= a * s * 0x100_0001) by (nonlinear_arith)
            requires
                n == x * s,
                x * 0x100_0000 <= a * 0x100_0001,
                s > 0,
        ;
        assert(n * 0x100_0000 >= a * s * 0xff_ffff) by (nonlinear_arith)
            requires
                n == x * s,
                x * 0x100_0000 >= a * 0xff_ffff,
                s > 0,
        ;
        let (g, t) = (q * b, a * s);
        let m = q * y;
        assert(g >= 0 && t >= 0 && m >= 0) by (nonlinear_arith)
            requires
                g == q * b,
                t == a * s,
                m == q * y,
                q >= 0,
        ;
        assert(g * 0x20_0000 <= t * 0x20_0001);
        assert(g * 0x20_0000 >= t * 0x1f_ffff);
    }
}

/// Nothing divided is nothing.
pub proof fn quotient_of_nothing(b: nat)
    requires
        0 < b <= u32::MAX,
    ensures
        quotient(0, b) == 0,
{
    let q = quotient(0, b);
    lemma_pow2_pos(56);
    lemma_quotient_accurate(0, b);
    assert(0 * pow2(56) == 0);
    assert(q == 0) by (nonlinear_arith)
        requires
            q * b * 0x20_0000 <= 0,
            b > 0,
            q >= 0,
    ;
}

/// A number divided by itself is one.
pub proof fn quotient_of_the_whole(b: nat)
    requires
        0 < b <= u32::MAX,
    ensures
        quotient(b, b) == pow2(56),
{
    let y = as_single(b);
    lemma_nearest_positive(b);
    vstd::arithmetic::power2::lemma2_to64();
    vstd::arithmetic::power2::lemma2_to64_rest();
    let s = pow2(56);
    let n = y * s;
    vstd::arithmetic::div_mod::lemma_div_multiples_vanish(s as int, y as int);
    assert(n / y == s);
    lemma_excess_of_power();
    let step = pow2(33);
    let unit = y * step;
    assert(n == unit * 0x80_0000) by (nonlinear_arith)
        requires
            n == y * s,
            unit == y * step,
            s == step * 0x80_0000,
    ;
    assert(unit > 0) by (nonlinear_arith)
        requires
            unit == y * step,
            y > 0,
            step > 0,
    ;
    vstd::arithmetic::div_mod::lemma_div_multiples_vanish(0x80_0000, unit as int);
    vstd::arithmetic::div_mod::lemma_mod_multiples_basic(0x80_0000, unit as int);
    assert(half_even(n, unit) == 0x80_0000);
}

proof fn lemma_excess_of_power()
    ensures
        excess_bits(pow2(56)) == 33,
{
    vstd::arithmetic::power2::lemma2_to64();
    vstd::arithmetic::power2::lemma2_to64_rest();
    reveal_with_fuel(excess_bits, 35);
}

/// The number one is 2^149 units.
pub proof fn one_is_the_unit()
    ensures
        (Single { bits: 0x3f80_0000 }).value() == pow2(149),
        pow2(56) * pow2(93) == pow2(149),
{
    let one = Single { bits: 0x3f80_0000 };
    vstd::arithmetic::power2::lemma2_to64();
    assert(one.exponent_field() == 127);
    assert(one.significand() == 0x80_0000);
    lemma_pow2_adds(23, 126);
    lemma_pow2_adds(56, 93);
}

} // verus!
