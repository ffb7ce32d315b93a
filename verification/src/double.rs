//! Whole-number readings of an IEEE 754 double, from its 64 bits.
//!
//! A double is held as its bit pattern, so that conversions to whole numbers
//! are exact integer arithmetic.

use vstd::arithmetic::power2::pow2;
use vstd::prelude::*;

verus! {

/// The sign bit.
pub open spec fn negative(bits: u64) -> bool {
    bits >= 0x8000_0000_0000_0000
}

/// The bits without the sign.
pub open spec fn magnitude_bits(bits: u64) -> int {
    if negative(bits) {
        bits - 0x8000_0000_0000_0000
    } else {
        bits as int
    }
}

/// The eleven exponent bits.
pub open spec fn exponent_field(bits: u64) -> int {
    magnitude_bits(bits) / 0x10_0000_0000_0000
}

/// The fifty-two fraction bits.
pub open spec fn fraction_field(bits: u64) -> int {
    magnitude_bits(bits) % 0x10_0000_0000_0000
}

/// Neither infinite nor "not a number".
pub open spec fn is_finite(bits: u64) -> bool {
    exponent_field(bits) < 2047
}

/// The pattern of "not a number".
pub open spec fn is_nan(bits: u64) -> bool {
    exponent_field(bits) == 2047 && fraction_field(bits) != 0
}

/// Whether two patterns stand for one value. All patterns of "not a number" do.
pub open spec fn same(left: Option<u64>, right: Option<u64>) -> bool {
    match (left, right) {
        (Some(left), Some(right)) => left == right || (is_nan(left) && is_nan(right)),
        (None, None) => true,
        _ => false,
    }
}

/// Whether the value is zero, of either sign.
pub open spec fn is_zero(bits: u64) -> bool {
    magnitude_bits(bits) == 0
}

/// The whole number whose product with `2^scale` is the magnitude.
pub open spec fn significand(bits: u64) -> nat {
    if exponent_field(bits) == 0 {
        fraction_field(bits) as nat
    } else {
        (fraction_field(bits) + 0x10_0000_0000_0000) as nat
    }
}

/// The power of two that goes with `significand`.
pub open spec fn scale(bits: u64) -> int {
    if exponent_field(bits) == 0 {
        -1074
    } else {
        exponent_field(bits) - 1075
    }
}

/// The whole part of `m * 2^e`.
pub open spec fn whole_part(m: nat, e: int) -> nat {
    if e >= 0 {
        m * pow2(e as nat)
    } else {
        m / pow2((-e) as nat)
    }
}

/// `n / 2^k`, rounded to the nearest whole number, and to the even one between two.
pub open spec fn round_shift(n: nat, k: nat) -> nat {
    let q = n / pow2(k);
    let r = n % pow2(k);
    if 2 * r > pow2(k) || (2 * r == pow2(k) && q % 2 == 1) {
        q + 1
    } else {
        q
    }
}

/// By how many binary digits `n` is longer than the fifty-three that a double holds.
pub open spec fn excess(n: nat) -> nat
    decreases n,
{
    if n < 0x20_0000_0000_0000 {
        0
    } else {
        1 + excess(n / 2)
    }
}

/// The whole part of the magnitude of the double product of the value and one thousand.
pub open spec fn thousandfold(bits: u64) -> nat {
    let product = significand(bits) * 1000;
    let extra = excess(product);
    whole_part(round_shift(product, extra), scale(bits) + extra)
}

/// `n`, or `max` where `n` is larger.
pub open spec fn capped(n: nat, max: nat) -> nat {
    if n > max {
        max
    } else {
        n
    }
}

/// The whole part of a finite value that is not below zero, up to the largest `u64`.
pub open spec fn count_of(bits: u64) -> Option<u64> {
    if is_finite(bits) && (!negative(bits) || is_zero(bits)) {
        Some(capped(whole_part(significand(bits), scale(bits)), u64::MAX as nat) as u64)
    } else {
        None
    }
}

/// One thousand times the value, cut to a whole number of the range of `i64`.
pub open spec fn millis_of(bits: u64) -> i64 {
    if is_nan(bits) {
        0
    } else if negative(bits) {
        if !is_finite(bits) {
            i64::MIN
        } else {
            (-(capped(thousandfold(bits), 0x8000_0000_0000_0000) as int)) as i64
        }
    } else if !is_finite(bits) {
        i64::MAX
    } else {
        capped(thousandfold(bits), i64::MAX as nat) as i64
    }
}

/// One thousand times the value, cut to a whole number from zero to the largest `u64`.
pub open spec fn unsigned_millis_of(bits: u64) -> u64 {
    if is_nan(bits) || negative(bits) {
        0
    } else if !is_finite(bits) {
        u64::MAX
    } else {
        capped(thousandfold(bits), u64::MAX as nat) as u64
    }
}

/// `2^k`.
fn power(k: u32) -> (out: u64)
    requires
        k < 64,
    ensures
        out == pow2(k as nat),
        out > 0,
{
    let mut out: u64 = 1;
    let mut i: u32 = 0;
    proof {
        vstd::arithmetic::power2::lemma2_to64();
    }
    while i < k
        invariant
            i <= k < 64,
            out == pow2(i as nat),
            out > 0,
        decreases k - i,
    {
        proof {
            vstd::arithmetic::power2::lemma_pow2_unfold((i + 1) as nat);
            vstd::arithmetic::power2::lemma_pow2_strictly_increases((i + 1) as nat, 64);
            vstd::arithmetic::power2::lemma2_to64();
        }
        out = out * 2;
        i = i + 1;
    }
    out
}

/// A quotient by a power of two past the dividend is zero.
proof fn lemma_small_quotient(m: nat, k: nat)
    requires
        m <= u64::MAX,
        k >= 64,
    ensures
        m / pow2(k) == 0,
{
    vstd::arithmetic::power2::lemma2_to64();
    if k > 64 {
        vstd::arithmetic::power2::lemma_pow2_strictly_increases(64, k);
    }
    vstd::arithmetic::div_mod::lemma_basic_div(m as int, pow2(k) as int);
}

/// A product with a large power of two passes every `u64`.
proof fn lemma_large_product(m: nat, k: nat, top: nat)
    requires
        m > 0,
        m > top / pow2(k) || k >= 64,
        top <= u64::MAX,
    ensures
        m * pow2(k) > top,
{
    vstd::arithmetic::power2::lemma2_to64();
    vstd::arithmetic::power2::lemma_pow2_pos(k);
    if k >= 64 {
        if k > 64 {
            vstd::arithmetic::power2::lemma_pow2_strictly_increases(64, k);
        }
        assert(m * pow2(k) >= pow2(k)) by (nonlinear_arith)
            requires
                m > 0,
        ;
    } else {
        let p = pow2(k) as int;
        let q = top as int / p;
        vstd::arithmetic::div_mod::lemma_fundamental_div_mod(top as int, p);
        assert(m * p > top) by (nonlinear_arith)
            requires
                m >= q + 1,
                top == p * q + top as int % p,
                0 <= top as int % p < p,
        ;
    }
}

/// The whole part of `m * 2^e`, at most `top`.
fn capped_whole(m: u64, e: i32, top: u64) -> (out: u64)
    requires
        -2000 <= e <= 2000,
    ensures
        out == capped(whole_part(m as nat, e as int), top as nat),
{
    if e >= 0 {
        if m == 0 {
            assert(0 * pow2(e as nat) == 0);
            return 0;
        }
        if e >= 64 {
            proof {
                lemma_large_product(m as nat, e as nat, top as nat);
            }
            return top;
        }
        let p: u64 = power(e as u32);
        if m > top / p {
            proof {
                lemma_large_product(m as nat, e as nat, top as nat);
            }
            top
        } else {
            proof {
                let q = top as int / p as int;
                vstd::arithmetic::div_mod::lemma_fundamental_div_mod(top as int, p as int);
                assert(m * p <= top) by (nonlinear_arith)
                    requires
                        m <= q,
                        p > 0,
                        top == p * q + top as int % p as int,
                        0 <= top as int % p as int,
                ;
            }
            m * p
        }
    } else {
        let k: u32 = (-e) as u32;
        let whole: u64 = if k >= 64 {
            proof {
                lemma_small_quotient(m as nat, k as nat);
            }
            0
        } else {
            m / power(k)
        };
        if whole > top {
            top
        } else {
            whole
        }
    }
}

/// The parts of a double: sign, exponent field, fraction field.
fn fields(bits: u64) -> (out: (bool, u64, u64))
    ensures
        out.0 == negative(bits),
        out.1 == exponent_field(bits),
        out.2 == fraction_field(bits),
        out.1 <= 2047,
        out.2 < 0x10_0000_0000_0000,
{
    let sign = bits >= 0x8000_0000_0000_0000;
    let magnitude: u64 = if sign {
        bits - 0x8000_0000_0000_0000
    } else {
        bits
    };
    (sign, magnitude / 0x10_0000_0000_0000, magnitude % 0x10_0000_0000_0000)
}

/// Decides `is_zero`.
pub fn zero(bits: u64) -> (out: bool)
    ensures
        out == is_zero(bits),
{
    bits == 0 || bits == 0x8000_0000_0000_0000
}

/// Computes `count_of`.
pub fn count(bits: u64) -> (out: Option<u64>)
    ensures
        out == count_of(bits),
{
    let (sign, exponent, fraction) = fields(bits);
    if exponent == 2047 || (sign && !zero(bits)) {
        None
    } else if exponent == 0 {
        Some(capped_whole(fraction, -1074, u64::MAX))
    } else {
        Some(capped_whole(fraction + 0x10_0000_0000_0000, exponent as i32 - 1075, u64::MAX))
    }
}

/// `excess` of a number of at most sixty-three binary digits is at most ten.
proof fn lemma_excess_bound(n: nat, k: nat)
    requires
        n < pow2(53 + k),
    ensures
        excess(n) <= k,
    decreases k,
{
    vstd::arithmetic::power2::lemma2_to64_rest();
    if n >= 0x20_0000_0000_0000 && k > 0 {
        vstd::arithmetic::power2::lemma_pow2_unfold(53 + k);
        lemma_excess_bound(n / 2, (k - 1) as nat);
    }
}

/// Computes `excess`.
fn excess_of(n: u64) -> (out: u32)
    requires
        n < 0x8000_0000_0000_0000,
    ensures
        out == excess(n as nat),
        out <= 10,
{
    let mut rest: u64 = n;
    let mut out: u32 = 0;
    proof {
        vstd::arithmetic::power2::lemma2_to64();
        vstd::arithmetic::power2::lemma2_to64_rest();
        lemma_excess_bound(n as nat, 10);
    }
    while rest >= 0x20_0000_0000_0000
        invariant
            excess(n as nat) == out + excess(rest as nat),
            excess(n as nat) <= 10,
        decreases rest,
    {
        rest = rest / 2;
        out = out + 1;
    }
    out
}

/// The whole part of the thousandfold value, at most `top`.
fn capped_thousandfold(bits: u64, top: u64) -> (out: u64)
    requires
        is_finite(bits),
    ensures
        out == capped(thousandfold(bits), top as nat),
{
    let (_, exponent, fraction) = fields(bits);
    let mantissa: u64 = if exponent == 0 {
        fraction
    } else {
        fraction + 0x10_0000_0000_0000
    };
    let e: i32 = if exponent == 0 {
        -1074
    } else {
        exponent as i32 - 1075
    };
    let product: u64 = mantissa * 1000;
    let extra: u32 = excess_of(product);
    let p: u64 = power(extra);
    proof {
        vstd::arithmetic::power2::lemma2_to64();
        if extra < 10 {
            vstd::arithmetic::power2::lemma_pow2_strictly_increases(extra as nat, 10);
        }
    }
    let q: u64 = product / p;
    let r: u64 = product % p;
    assert(q <= product) by (nonlinear_arith)
        requires
            q == product / p,
            p >= 1,
    ;
    let rounded: u64 = if 2 * r > p || (2 * r == p && q % 2 == 1) {
        q + 1
    } else {
        q
    };
    capped_whole(rounded, e + extra as i32, top)
}

/// Computes `millis_of`.
pub fn millis(bits: u64) -> (out: i64)
    ensures
        out == millis_of(bits),
{
    let (sign, exponent, fraction) = fields(bits);
    if exponent == 2047 {
        if fraction != 0 {
            0
        } else if sign {
            i64::MIN
        } else {
            i64::MAX
        }
    } else if sign {
        let magnitude: u64 = capped_thousandfold(bits, 0x8000_0000_0000_0000);
        (-(magnitude as i128)) as i64
    } else {
        capped_thousandfold(bits, 0x7fff_ffff_ffff_ffff) as i64
    }
}

/// Computes `unsigned_millis_of`.
pub fn unsigned_millis(bits: u64) -> (out: u64)
    ensures
        out == unsigned_millis_of(bits),
{
    let (sign, exponent, fraction) = fields(bits);
    if exponent == 2047 {
        if fraction != 0 || sign {
            0
        } else {
            u64::MAX
        }
    } else if sign {
        0
    } else {
        capped_thousandfold(bits, u64::MAX)
    }
}

// ----------------------------------------------------------------------
// Laws

/// A product with a power of two, divided by that power, is what it was.
proof fn lemma_shifted_back(n: nat, k: nat)
    ensures
        (n * pow2(k)) / pow2(k) == n,
        (n * pow2(k)) % pow2(k) == 0,
{
    vstd::arithmetic::power2::lemma_pow2_pos(k);
    vstd::arithmetic::div_mod::lemma_div_multiples_vanish(n as int, pow2(k) as int);
    vstd::arithmetic::div_mod::lemma_mod_multiples_basic(n as int, pow2(k) as int);
    assert(n * pow2(k) == pow2(k) * n) by (nonlinear_arith);
}

/// A whole number of up to forty-two binary digits behind its first one, written
/// as a double, is read as that number, and as a thousand times it in thousandths.
pub proof fn law_whole_numbers_are_read(n: nat, k: nat, bits: u64)
    requires
        k <= 42,
        pow2(k) <= n < pow2(k + 1),
        bits == (1023 + k) * 0x10_0000_0000_0000 + (n * pow2((52 - k) as nat)
            - 0x10_0000_0000_0000),
    ensures
        count_of(bits) == Some(n as u64),
        unsigned_millis_of(bits) == 1000 * n,
        millis_of(bits) == 1000 * n,
        is_zero(bits) == false,
{
    let j = (52 - k) as nat;
    let m = n * pow2(j);
    vstd::arithmetic::power2::lemma_pow2_adds(k, j);
    vstd::arithmetic::power2::lemma_pow2_adds(k + 1, j);
    vstd::arithmetic::power2::lemma2_to64();
    vstd::arithmetic::power2::lemma2_to64_rest();
    assert(pow2(52) == 0x10_0000_0000_0000);
    assert(pow2(53) == 0x20_0000_0000_0000);
    let p = pow2(j);
    let low = pow2(k);
    let high = pow2(k + 1);
    vstd::arithmetic::power2::lemma_pow2_pos(j);
    assert(low * p <= n * p) by (nonlinear_arith)
        requires
            low <= n,
    ;
    assert(n * p < high * p) by (nonlinear_arith)
        requires
            n < high,
            p > 0,
    ;
    assert(pow2(52) <= m < pow2(53));
    let fraction = m - 0x10_0000_0000_0000;
    assert(0 <= fraction < 0x10_0000_0000_0000);
    assert(!negative(bits));
    assert(magnitude_bits(bits) == (1023 + k) * 0x10_0000_0000_0000 + fraction);
    assert(exponent_field(bits) == 1023 + k);
    assert(fraction_field(bits) == fraction);
    assert(significand(bits) == m);
    assert(scale(bits) == -(j as int));
    lemma_shifted_back(n, j);
    assert(whole_part(m, scale(bits)) == n);
    lemma_thousandfold(n, k, bits);
    vstd::arithmetic::power2::lemma_pow2_strictly_increases(k + 1, 44);
    assert(n < pow2(44) && pow2(44) == 0x1000_0000_0000);
}

proof fn lemma_thousandfold(n: nat, k: nat, bits: u64)
    requires
        k <= 42,
        significand(bits) == n * pow2((52 - k) as nat),
        significand(bits) < pow2(53),
        scale(bits) == k - 52,
    ensures
        thousandfold(bits) == 1000 * n,
{
    let j = (52 - k) as nat;
    let m = n * pow2(j);
    let product = m * 1000;
    vstd::arithmetic::power2::lemma2_to64();
    vstd::arithmetic::power2::lemma2_to64_rest();
    vstd::arithmetic::power2::lemma_pow2_adds(53, 10);
    assert(product < pow2(53 + 10));
    lemma_excess_bound(product, 10);
    let extra = excess(product);
    let rest = (j - extra) as nat;
    vstd::arithmetic::power2::lemma_pow2_adds(rest, extra);
    let kept = 1000 * n * pow2(rest);
    let a = pow2(rest);
    let b = pow2(extra);
    assert(n * (a * b) * 1000 == 1000 * n * a * b) by (nonlinear_arith);
    assert(product == kept * pow2(extra));
    lemma_shifted_back(kept, extra);
    vstd::arithmetic::power2::lemma_pow2_pos(extra);
    assert(round_shift(product, extra) == kept);
    assert(scale(bits) + extra == -(rest as int));
    lemma_shifted_back(1000 * n, rest);
    if rest == 0 {
        assert(pow2(0) == 1);
        assert(1000 * n * a == 1000 * n) by (nonlinear_arith)
            requires
                a == 1,
        ;
        assert(kept * pow2(0) == kept);
    }
}

/// What is below zero is no count and no time to wait.
pub proof fn law_negative_numbers_are_no_counts(bits: u64)
    ensures
        bits > 0x8000_0000_0000_0000 ==> count_of(bits) is None,
        bits > 0x8000_0000_0000_0000 ==> unsigned_millis_of(bits) == 0,
        bits == 0 ==> count_of(bits) == Some(0u64) && is_zero(bits),
{
    if bits == 0 {
        assert(exponent_field(bits) == 0 && fraction_field(bits) == 0);
        vstd::arithmetic::power2::lemma_pow2_pos(1074);
        lemma_shifted_back(0, 1074);
        assert(0 * pow2(1074) == 0) by (nonlinear_arith);
    }
}

} // verus!
