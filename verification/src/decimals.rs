//! Quotients in double precision and their decimal texts, computed on integers.
use vstd::arithmetic::power2::pow2;
use vstd::prelude::*;
use vstd::string::*;
use crate::text;
use crate::text::{concat2, concat3, number, number2};

verus! {

/// A number in double precision, by its IEEE 754 bits.
#[derive(Clone, Copy, Debug, PartialEq, Eq, Structural)]
pub struct Real {
    pub bits: u64,
}

/// The integer nearest to a fraction; of two that are equally near, the even one.
pub open spec fn half_even(num: int, den: int) -> int {
    let q = num / den;
    let r = num % den;
    if 2 * r < den || (2 * r == den && q % 2 == 0) {
        q
    } else {
        q + 1
    }
}

/// Rounding moves a fraction by at most one half.
pub proof fn rounding_is_near(num: int, den: int)
    requires
        0 < den,
    ensures
        -den <= 2 * (half_even(num, den) * den - num) <= den,
{
    vstd::arithmetic::div_mod::lemma_fundamental_div_mod(num, den);
    let q = num / den;
    assert((q + 1) * den == q * den + den) by (nonlinear_arith);
    assert(q * den == den * q) by (nonlinear_arith);
}

fn rounded(num: u128, den: u128) -> (r: u128)
    requires
        0 < den < 0x8000_0000_0000_0000_0000_0000_0000_0000,
        num < u128::MAX,
    ensures
        r == half_even(num as int, den as int),
        r <= num / den + 1,
{
    let q: u128 = num / den;
    let rest: u128 = num % den;
    proof {
        vstd::arithmetic::div_mod::lemma_fundamental_div_mod(num as int, den as int);
        vstd::arithmetic::div_mod::lemma_div_is_ordered_by_denominator(num as int, 1, den as int);
    }
    if 2 * rest < den || (2 * rest == den && q % 2 == 0) {
        q
    } else {
        q + 1
    }
}

/// A positive fraction has the significand `m` and the exponent `-e` in double precision: `m` has
/// fifty-three bits, or is the next power of two, and `m / 2^e` is the nearest such number.
pub open spec fn is_double(num: int, den: int, m: int, e: nat) -> bool {
    &&& pow2(52) * den <= num * pow2(e) < pow2(53) * den
    &&& m == half_even(num * pow2(e), den)
}

/// The significand and the exponent of a positive fraction in double precision.
pub open spec fn double_parts(num: int, den: int) -> (int, nat) {
    choose|p: (int, nat)| #[trigger] is_double(num, den, p.0, p.1)
}

/// A fraction has one significand and one exponent.
pub proof fn double_parts_are_unique(num: int, den: int, m: int, e: nat)
    requires
        0 < num,
        0 < den,
        is_double(num, den, m, e),
    ensures
        double_parts(num, den) == (m, e),
{
    let p = (m, e);
    assert(is_double(num, den, p.0, p.1));
    let q = double_parts(num, den);
    assert(is_double(num, den, q.0, q.1));
    if q.1 < e {
        greater_exponents_overflow(num, den, q.1, e);
    } else if e < q.1 {
        greater_exponents_overflow(num, den, e, q.1);
    }
}

proof fn greater_exponents_overflow(num: int, den: int, a: nat, b: nat)
    requires
        0 < num,
        0 < den,
        a < b,
        pow2(52) * den <= num * pow2(a),
    ensures
        pow2(53) * den <= num * pow2(b),
{
    vstd::arithmetic::power2::lemma_pow2_unfold(53);
    vstd::arithmetic::power2::lemma_pow2_unfold(a + 1);
    if a + 1 < b {
        vstd::arithmetic::power2::lemma_pow2_strictly_increases(a + 1, b);
    }
    let x = pow2(a) as int;
    let y = pow2(b) as int;
    assert(num * y >= num * (2 * x)) by (nonlinear_arith)
        requires
            y >= 2 * x,
            0 < num,
    ;
    assert(num * (2 * x) == 2 * (num * x)) by (nonlinear_arith);
    let z = pow2(52) as int;
    assert((2 * z) * den == 2 * (z * den)) by (nonlinear_arith);
}

/// A fraction in double precision: significand, exponent, and the power of two of the exponent.
struct Parts {
    significand: u128,
    exponent: u32,
    scale: u128,
}

fn parts(num: u128, den: u128) -> (r: Parts)
    requires
        0 < num,
        0 < den <= 0x1_0000_0000_0000_0000,
        num < 0x10_0000_0000_0000 * den,
    ensures
        is_double(num as int, den as int, r.significand as int, r.exponent as nat),
        double_parts(num as int, den as int) == (r.significand as int, r.exponent as nat),
        0x10_0000_0000_0000 <= r.significand <= 0x20_0000_0000_0000,
        r.scale == pow2(r.exponent as nat),
        0 < r.scale < 0x20_0000_0000_0000 * 0x1_0000_0000_0000_0000,
        r.exponent < 128,
{
    let least: u128 = 0x10_0000_0000_0000u128 * den;
    let mut t: u128 = num;
    let mut scale: u128 = 1;
    let mut e: u32 = 0;
    proof {
        vstd::arithmetic::power2::lemma2_to64();
        vstd::arithmetic::power2::lemma2_to64_rest();
        assert(pow2(52) == 0x10_0000_0000_0000);
        assert(pow2(53) == 0x20_0000_0000_0000);
    }
    while t < least
        invariant
            0 < num,
            0 < den <= 0x1_0000_0000_0000_0000,
            least == 0x10_0000_0000_0000 * den,
            t == num * scale,
            t < 2 * least,
            scale == pow2(e as nat),
            0 < scale <= t,
            e < 128,
        decreases 2 * least - t,
    {
        proof {
            vstd::arithmetic::power2::lemma_pow2_unfold((e + 1) as nat);
            assert(num * (scale * 2) == (num * scale) * 2) by (nonlinear_arith);
            exponent_fits((e + 1) as nat, scale as int * 2);
        }
        t = t * 2;
        scale = scale * 2;
        e = e + 1;
    }
    let m: u128 = rounded(t, den);
    proof {
        assert(num as int * pow2(e as nat) == t);
        assert(pow2(53) * den == 2 * least);
        assert(pow2(52) * den == least);
        vstd::arithmetic::div_mod::lemma_fundamental_div_mod(t as int, den as int);
        quotient_is_bounded(t as int, den as int);
        double_parts_are_unique(num as int, den as int, m as int, e as nat);
    }
    Parts { significand: m, exponent: e, scale }
}

proof fn exponent_fits(e: nat, scale: int)
    requires
        scale == pow2(e),
        scale <= u128::MAX,
    ensures
        e < 128,
{
    if e >= 128 {
        vstd::arithmetic::power2::lemma2_to64_rest();
        vstd::arithmetic::power2::lemma_pow2_adds(64, 64);
        if e > 128 {
            vstd::arithmetic::power2::lemma_pow2_strictly_increases(128, e);
        }
    }
}

proof fn quotient_is_bounded(t: int, d: int)
    requires
        0 < d,
        0x10_0000_0000_0000 * d <= t < 0x20_0000_0000_0000 * d,
    ensures
        0x10_0000_0000_0000 <= t / d < 0x20_0000_0000_0000,
{
    let q = t / d;
    let r = t % d;
    vstd::arithmetic::div_mod::lemma_fundamental_div_mod(t, d);
    assert(q < 0x20_0000_0000_0000) by (nonlinear_arith)
        requires
            d > 0,
            t == d * q + r,
            0 <= r,
            t < 0x20_0000_0000_0000 * d,
    ;
    assert(q >= 0x10_0000_0000_0000) by (nonlinear_arith)
        requires
            d > 0,
            t == d * q + r,
            r < d,
            t >= 0x10_0000_0000_0000 * d,
    ;
}

proof fn exponent_is_bounded(num: int, den: int, e: nat, scale: int)
    requires
        0 < num < 0x1_0000_0000,
        0 < den < 0x1_0000_0000,
        scale == pow2(e),
        0x10_0000_0000_0000 * den <= num * scale < 0x20_0000_0000_0000 * den,
    ensures
        21 <= e <= 84,
{
    vstd::arithmetic::power2::lemma2_to64();
    vstd::arithmetic::power2::lemma2_to64_rest();
    if e < 21 {
        vstd::arithmetic::power2::lemma_pow2_strictly_increases(e, 21);
        assert(scale <= 0x10_0000) by {
            if e < 20 {
                vstd::arithmetic::power2::lemma_pow2_strictly_increases(e, 20);
            }
        }
        assert(num * scale <= 0xFFFF_FFFF * 0x10_0000) by (nonlinear_arith)
            requires
                0 < num <= 0xFFFF_FFFF,
                0 <= scale <= 0x10_0000,
        ;
    }
    if e > 84 {
        vstd::arithmetic::power2::lemma_pow2_strictly_increases(84, e);
        vstd::arithmetic::power2::lemma_pow2_adds(53, 32);
        if e > 85 {
            vstd::arithmetic::power2::lemma_pow2_strictly_increases(85, e);
        }
        assert(pow2(85) == 0x20_0000_0000_0000 * 0x1_0000_0000);
        assert(num * scale >= scale) by (nonlinear_arith)
            requires
                num >= 1,
                scale >= 0,
        ;
    }
}

/// The bits of a positive fraction in double precision.
pub open spec fn quotient_bits(num: int, den: int) -> int {
    let p = double_parts(num, den);
    (1075 - p.1) * pow2(52) + (p.0 - pow2(52))
}

/// The quotient of two positive numbers in double precision.
pub fn quotient(num: u32, den: u32) -> (r: Real)
    requires
        0 < num,
        0 < den,
    ensures
        r.bits == quotient_bits(num as int, den as int),
{
    let p: Parts = parts(num as u128, den as u128);
    proof {
        vstd::arithmetic::power2::lemma2_to64();
        vstd::arithmetic::power2::lemma2_to64_rest();
        exponent_is_bounded(num as int, den as int, p.exponent as nat, p.scale as int);
    }
    let high: u64 = (1075 - p.exponent) as u64;
    let low: u64 = (p.significand - 0x10_0000_0000_0000u128) as u64;
    assert(high * 0x10_0000_0000_0000 <= 1054 * 0x10_0000_0000_0000);
    Real { bits: high * 0x10_0000_0000_0000u64 + low }
}

/// A count of tenths as a decimal text.
pub open spec fn tenths_text(n: nat) -> Seq<char> {
    text::decimal(n / 10) + "."@ + text::decimal(n % 10)
}

/// A count of hundredths as a decimal text.
pub open spec fn hundredths_text(n: nat) -> Seq<char> {
    text::decimal(n / 100) + "."@ + text::decimal2(n % 100)
}

fn tenths(n: u64) -> (r: String)
    ensures
        r@ == tenths_text(n as nat),
{
    concat3(number(n / 10).as_str(), ".", number(n % 10).as_str())
}

fn hundredths(n: u64) -> (r: String)
    ensures
        r@ == hundredths_text(n as nat),
{
    concat3(number(n / 100).as_str(), ".", number2(n % 100).as_str())
}

/// The quotient of two positive numbers, in double precision and then to one decimal, in tenths.
pub open spec fn quotient_tenths(num: int, den: int) -> int {
    let p = double_parts(num, den);
    half_even(p.0 * 10, pow2(p.1) as int)
}

/// The quotient of two positive numbers with one decimal.
pub fn quotient_text(num: u32, den: u32) -> (r: String)
    requires
        0 < den,
        den <= num,
    ensures
        0 <= quotient_tenths(num as int, den as int),
        r@ == tenths_text(quotient_tenths(num as int, den as int) as nat),
{
    let p: Parts = parts(num as u128, den as u128);
    let n: u128 = p.significand * 10;
    let q: u128 = rounded(n, p.scale);
    proof {
        vstd::arithmetic::power2::lemma2_to64_rest();
        exponent_is_bounded(num as int, den as int, p.exponent as nat, p.scale as int);
        vstd::arithmetic::power2::lemma2_to64();
        vstd::arithmetic::power2::lemma2_to64_rest();
        assert(p.scale >= 0x20_0000) by {
            if p.exponent > 21 {
                vstd::arithmetic::power2::lemma_pow2_strictly_increases(21, p.exponent as nat);
            }
        }
        let big: int = 0x140_0000_0000_0000;
        vstd::arithmetic::div_mod::lemma_div_is_ordered(n as int, big, p.scale as int);
        vstd::arithmetic::div_mod::lemma_div_is_ordered_by_denominator(
            big,
            0x20_0000,
            p.scale as int,
        );
    }
    tenths(q as u64)
}

/// How many neighbouring integers of the size of `n` share one number in double precision.
pub open spec fn double_unit(n: nat) -> nat
    decreases n,
{
    if n < 0x20_0000_0000_0000 {
        1
    } else {
        2 * double_unit(n / 2)
    }
}

/// An integer in double precision: the nearest one that has fifty-three significant bits.
pub open spec fn as_double(n: nat) -> int {
    half_even(n as int, double_unit(n) as int) * double_unit(n)
}

proof fn unit_step(n: nat, unit: nat, k: nat)
    requires
        k == n / unit,
        0 < unit,
        double_unit(n) == unit * double_unit(k),
        k >= 0x20_0000_0000_0000,
    ensures
        n / (2 * unit) == k / 2,
        double_unit(n) == (2 * unit) * double_unit(k / 2),
{
    vstd::arithmetic::div_mod::lemma_div_denominator(n as int, unit as int, 2);
    assert(unit * 2 == 2 * unit);
    let d = double_unit(k / 2);
    assert(unit * (2 * d) == (2 * unit) * d) by (nonlinear_arith);
}

fn nearest_double(n: u64) -> (r: u128)
    ensures
        r == as_double(n as nat),
        r <= 0x1_0000_0000_0000_0000,
{
    let mut unit: u64 = 1;
    let mut k: u64 = n;
    while k >= 0x20_0000_0000_0000u64
        invariant
            k == n / unit,
            0 < unit,
            double_unit(n as nat) == unit * double_unit(k as nat),
            k >= 0x10_0000_0000_0000 || unit == 1,
            unit == 1 || unit == 2 || unit == 4 || unit == 8 || unit == 16 || unit == 32 || unit
                == 64 || unit == 128 || unit == 256 || unit == 512 || unit == 1024 || unit == 2048,
        decreases k,
    {
        proof {
            unit_step(n as nat, unit as nat, k as nat);
            assert(unit < 2048) by {
                if unit >= 2048 {
                    vstd::arithmetic::div_mod::lemma_div_is_ordered(
                        n as int,
                        0x1_0000_0000_0000_0000 - 1,
                        2048,
                    );
                }
            }
        }
        unit = unit * 2;
        k = k / 2;
    }
    proof {
        assert(double_unit(k as nat) == 1);
        assert(double_unit(n as nat) == unit as nat * 1);
        rounding_is_near(n as int, unit as int);
    }
    let q: u128 = rounded(n as u128, unit as u128);
    proof {
        nearest_is_bounded(n as int, unit as int, k as int);
        assert(q <= 0x20_0000_0000_0000);
        assert(q * unit <= 0x20_0000_0000_0000 * 2048) by (nonlinear_arith)
            requires
                q <= 0x20_0000_0000_0000,
                unit <= 2048,
        ;
    }
    q * (unit as u128)
}

proof fn nearest_is_bounded(n: int, unit: int, k: int)
    requires
        0 <= n,
        0 < unit,
        k == n / unit,
        k < 0x20_0000_0000_0000,
    ensures
        half_even(n, unit) <= 0x20_0000_0000_0000,
{
}

/// The number of bytes in a unit, as the file sizes are shown.
pub open spec fn size_text(n: nat) -> Seq<char> {
    let size = as_double(n);
    if n >= 1024 * 1024 * 1024 {
        hundredths_text(half_even(size * 100, 0x4000_0000) as nat) + " GB"@
    } else if n >= 1024 * 1024 {
        hundredths_text(half_even(size * 100, 0x10_0000) as nat) + " MB"@
    } else if n >= 1024 {
        tenths_text(half_even(size * 10, 1024) as nat) + " KB"@
    } else {
        text::decimal(n) + " B"@
    }
}

/// A byte count as text: gigabytes and megabytes with two decimals, kilobytes with one, else bytes.
pub fn format_bytes(n: u64) -> (r: String)
    ensures
        r@ == size_text(n as nat),
{
    let size: u128 = nearest_double(n);
    if n >= 1024 * 1024 * 1024 {
        let q: u128 = rounded(size * 100, 0x4000_0000);
        concat2(hundredths(q as u64).as_str(), " GB")
    } else if n >= 1024 * 1024 {
        proof {
            small_integers_are_exact(n as nat);
        }
        let q: u128 = rounded(size * 100, 0x10_0000);
        concat2(hundredths(q as u64).as_str(), " MB")
    } else if n >= 1024 {
        proof {
            small_integers_are_exact(n as nat);
        }
        let q: u128 = rounded(size * 10, 1024);
        concat2(tenths(q as u64).as_str(), " KB")
    } else {
        concat2(number(n).as_str(), " B")
    }
}

/// A byte count in the largest unit that it fills, with one decimal.
pub open spec fn compact_size(n: nat) -> Seq<char> {
    let size = as_double(n);
    if n < 1024 {
        text::decimal(n) + " B"@
    } else if n < 0x10_0000 {
        tenths_text(half_even(size * 10, 1024) as nat) + " KB"@
    } else if n < 0x4000_0000 {
        tenths_text(half_even(size * 10, 0x10_0000) as nat) + " MB"@
    } else if n < 0x100_0000_0000 {
        tenths_text(half_even(size * 10, 0x4000_0000) as nat) + " GB"@
    } else {
        tenths_text(half_even(size * 10, 0x100_0000_0000) as nat) + " TB"@
    }
}

/// A byte count in the largest unit that it fills, with one decimal.
pub fn human_bytes(bytes: u64) -> (r: String)
    ensures
        r@ == compact_size(bytes as nat),
{
    if bytes < 1024 {
        return concat2(number(bytes).as_str(), " B");
    }
    let size: u128 = nearest_double(bytes);
    proof {
        if bytes < 0x20_0000_0000_0000 {
            small_integers_are_exact(bytes as nat);
        }
    }
    if bytes < 0x10_0000 {
        let q: u128 = rounded(size * 10, 1024);
        concat2(tenths(q as u64).as_str(), " KB")
    } else if bytes < 0x4000_0000 {
        let q: u128 = rounded(size * 10, 0x10_0000);
        concat2(tenths(q as u64).as_str(), " MB")
    } else if bytes < 0x100_0000_0000 {
        let q: u128 = rounded(size * 10, 0x4000_0000);
        concat2(tenths(q as u64).as_str(), " GB")
    } else {
        let q: u128 = rounded(size * 10, 0x100_0000_0000);
        concat2(tenths(q as u64).as_str(), " TB")
    }
}

proof fn scaling_keeps_rounding(num: int, den: int, c: int)
    requires
        0 < den,
        0 < c,
        0 <= num,
    ensures
        half_even(num * c, den * c) == half_even(num, den),
{
    vstd::arithmetic::mul::lemma_mul_is_commutative(num, c);
    vstd::arithmetic::mul::lemma_mul_is_commutative(den, c);
    vstd::arithmetic::div_mod::lemma_truncate_middle(num, c, den);
    vstd::arithmetic::div_mod::lemma_div_denominator(c * num, c, den);
    vstd::arithmetic::div_mod::lemma_div_multiples_vanish(num, c);
    let r = num % den;
    assert(2 * (c * r) < c * den <==> 2 * r < den) by (nonlinear_arith)
        requires
            0 < c,
    ;
    assert(2 * (c * r) == c * den <==> 2 * r == den) by (nonlinear_arith)
        requires
            0 < c,
    ;
}

/// The whole per cent that `done` of `total` bytes are: the quotient in double precision, times a
/// hundred in double precision, to the nearest integer; a half counts as one.
pub open spec fn percent_of(done: nat, total: nat) -> int {
    if as_double(done) == 0 {
        0
    } else if as_double(done) >= as_double(total) {
        100
    } else {
        let q = double_parts(as_double(done), as_double(total));
        let p = double_parts(q.0 * 100, pow2(q.1) as int);
        (2 * p.0 + pow2(p.1)) / (2 * pow2(p.1) as int)
    }
}

/// The whole per cent that `done` of `total` bytes are, at most a hundred.
pub fn percent(done: u64, total: u64) -> (r: u32)
    requires
        total > 0,
    ensures
        r == percent_of(done as nat, total as nat),
        r <= 100,
{
    let b: u128 = nearest_double(done);
    let t: u128 = nearest_double(total);
    proof {
        positive_stays_positive(total as nat);
    }
    if b == 0 {
        return 0;
    }
    if b >= t {
        return 100;
    }
    let q: Parts = parts(b, t);
    let product: u128 = q.significand * 100;
    proof {
        vstd::arithmetic::power2::lemma2_to64();
        vstd::arithmetic::power2::lemma2_to64_rest();
        small_fraction_exponent(b as int, t as int, q.exponent as nat);
    }
    let shift: u32 = if product < 0x800_0000_0000_0000 {
        6
    } else {
        7
    };
    let unit: u128 = if product < 0x800_0000_0000_0000 {
        64
    } else {
        128
    };
    let m: u128 = rounded(product, unit);
    let ghost e = q.exponent as nat;
    let ghost rest = (e - shift) as nat;
    proof {
        vstd::arithmetic::power2::lemma_pow2_adds(rest, shift as nat);
        vstd::arithmetic::power2::lemma_pow2_pos(rest);
        let c = pow2(rest) as int;
        assert(pow2(e) == c * unit);
        scaling_keeps_rounding(product as int, unit as int, c);
        assert(unit as int * c == pow2(e)) by {
            vstd::arithmetic::mul::lemma_mul_is_commutative(unit as int, c);
        }
        shifted_bounds(product as int, unit as int, c);
        assert(is_double(product as int, pow2(e) as int, m as int, rest));
        double_parts_are_unique(product as int, pow2(e) as int, m as int, rest);
    }
    let scale: u128 = q.scale / unit;
    proof {
        let c = pow2(rest) as int;
        vstd::arithmetic::div_mod::lemma_div_multiples_vanish(c, unit as int);
        vstd::arithmetic::mul::lemma_mul_is_commutative(unit as int, c);
        assert(scale == c);
        if e > 53 {
            vstd::arithmetic::power2::lemma_pow2_strictly_increases(53, e);
        }
        vstd::arithmetic::power2::lemma2_to64_rest();
        percent_is_bounded(m as int, c, q.significand as int, unit as int, q.scale as int);
    }
    ((2 * m + scale) / (2 * scale)) as u32
}

proof fn positive_stays_positive(n: nat)
    requires
        n > 0,
    ensures
        as_double(n) > 0,
    decreases n,
{
    unit_is_small(n);
    let u = double_unit(n) as int;
    assert(n as int / u >= 1) by {
        vstd::arithmetic::div_mod::lemma_div_is_ordered(u, n as int, u);
        vstd::arithmetic::div_mod::lemma_div_by_self(u);
    }
    let q = half_even(n as int, u);
    assert(q * u > 0) by (nonlinear_arith)
        requires
            q >= 1,
            u >= 1,
    ;
}

proof fn unit_is_small(n: nat)
    requires
        n > 0,
    ensures
        1 <= double_unit(n) <= n,
    decreases n,
{
    if n >= 0x20_0000_0000_0000 {
        unit_is_small(n / 2);
    }
}

proof fn small_fraction_exponent(num: int, den: int, e: nat)
    requires
        0 < num < den,
        pow2(52) * den <= num * pow2(e),
    ensures
        e > 52,
{
    if e <= 52 {
        if e < 52 {
            vstd::arithmetic::power2::lemma_pow2_strictly_increases(e, 52);
        }
        let x = pow2(52) as int;
        let y = pow2(e) as int;
        vstd::arithmetic::power2::lemma_pow2_pos(52);
        assert(num * y < x * den) by (nonlinear_arith)
            requires
                0 < num < den,
                0 <= y <= x,
                0 < x,
        ;
    }
}

proof fn shifted_bounds(product: int, unit: int, c: int)
    requires
        0 < c,
        0x10_0000_0000_0000 * unit <= product < 0x20_0000_0000_0000 * unit,
    ensures
        0x10_0000_0000_0000 * (unit * c) <= product * c < 0x20_0000_0000_0000 * (unit * c),
{
    assert(0x10_0000_0000_0000 * (unit * c) <= product * c) by (nonlinear_arith)
        requires
            0 < c,
            0x10_0000_0000_0000 * unit <= product,
    ;
    assert(product * c < 0x20_0000_0000_0000 * (unit * c)) by (nonlinear_arith)
        requires
            0 < c,
            product < 0x20_0000_0000_0000 * unit,
    ;
}

proof fn percent_is_bounded(m: int, c: int, significand: int, unit: int, scale: int)
    requires
        0 < c,
        unit == 64 || unit == 128,
        scale == unit * c,
        scale >= 0x20_0000_0000_0000,
        0 < significand <= 0x20_0000_0000_0000,
        m == half_even(significand * 100, unit),
    ensures
        0 <= m,
        (2 * m + c) / (2 * c) <= 100,
{
    let product = significand * 100;
    assert(m * unit <= product + unit) by {
        vstd::arithmetic::div_mod::lemma_fundamental_div_mod(product, unit);
    }
    assert(2 * m + c < 2 * c * 101);
    assert((2 * m + c) / (2 * c) < 101) by {
        vstd::arithmetic::div_mod::lemma_div_by_multiple_is_strongly_ordered(
            2 * m + c,
            101 * (2 * c),
            101,
            2 * c,
        );
        vstd::arithmetic::div_mod::lemma_div_multiples_vanish(101, 2 * c);
    }
}

/// Below fifty-three bits double precision keeps every integer.
pub proof fn small_integers_are_exact(n: nat)
    requires
        n < 0x20_0000_0000_0000,
    ensures
        as_double(n) == n,
{
    vstd::arithmetic::div_mod::lemma_fundamental_div_mod(n as int, 1);
    assert(double_unit(n) == 1);
    let m = half_even(n as int, double_unit(n) as int);
    assert(m == n as int);
    assert(m * 1 == m) by (nonlinear_arith);
}

} // verus!
