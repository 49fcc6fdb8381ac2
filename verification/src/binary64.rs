//! Scaling of coordinates by a ratio, with the rounding of binary64 arithmetic.
//!
//! A coordinate is scaled as `a * b / c` in double precision and then cut to an
//! integer. Both operations round to 53 significant bits, half to even; for
//! coordinates of real screens neither has anything to round
//! ([`law_scaling_is_exact`]). The functions here give the result for all inputs,
//! computed on integers.
use crate::region::min;
use vstd::arithmetic::power2::{
    lemma2_to64, lemma_pow2_pos, lemma_pow2_strictly_increases, lemma_pow2_unfold, pow2,
};
use vstd::prelude::*;

verus! {

/// The number of integers that have at most 53 significant bits.
pub const SIGNIFICANDS: u128 = 0x20_0000_0000_0000;

/// `num / den` rounded to the nearest integer, half to even.
pub open spec fn round_half_even(num: nat, den: nat) -> nat {
    let floor = num / den;
    let rest = num % den;
    if 2 * rest < den || (2 * rest == den && floor % 2 == 0) {
        floor
    } else {
        floor + 1
    }
}

/// The first of `unit`, `2 * unit`, `4 * unit`, ... in which `n` is counted with
/// 53 bits.
pub open spec fn unit_for(n: nat, unit: nat) -> nat
    decreases 2 * n - unit,
{
    if n < SIGNIFICANDS * unit || unit == 0 {
        unit
    } else {
        unit_for(n, 2 * unit)
    }
}

/// The integer `n` as a double: the nearest one with 53 significant bits.
pub open spec fn rounded(n: nat) -> nat {
    let unit = unit_for(n, 1);
    round_half_even(n, unit) * unit
}

/// `num / den` multiplied by `scale`, and both doubled until the quotient has 53
/// bits in front of the point.
pub open spec fn normalized(num: nat, den: nat, scale: nat) -> (nat, nat)
    decreases SIGNIFICANDS * den - num,
{
    if 2 * num >= SIGNIFICANDS * den || num == 0 {
        (num, scale)
    } else {
        normalized(2 * num, den, 2 * scale)
    }
}

/// The integer part of the double nearest to `num / den`.
///
/// From 2^53 on, where a double has no digit behind the point to round, this is
/// the quotient itself: it stays above every bound that it is cut to here.
pub open spec fn truncated_quotient(num: nat, den: nat) -> nat {
    let (n, scale) = normalized(num, den, 1);
    round_half_even(n, den) / scale
}

/// `a * b / c` in double precision, cut to an integer of at most `limit`.
/// Division by zero gives infinity, which is cut to `limit`, or no number at all,
/// which is cut to zero.
pub open spec fn scaled(a: nat, b: nat, c: nat, limit: nat) -> nat {
    if c == 0 {
        if a * b == 0 {
            0
        } else {
            limit
        }
    } else {
        min(truncated_quotient(rounded(a * b), c) as int, limit as int) as nat
    }
}

/// `offset * scale` in double precision; both factors are integers.
pub open spec fn scaled_offset(offset: int, scale: int) -> int {
    if offset >= 0 {
        rounded((offset * scale) as nat) as int
    } else {
        -(rounded((-offset * scale) as nat) as int)
    }
}

fn divide_half_even(num: u128, den: u128) -> (res: u128)
    requires
        den > 0,
        den < 0x1_0000_0000_0000_0000,
        num < 0x1_0000_0000_0000_0000_0000_0000,
    ensures
        res == round_half_even(num as nat, den as nat),
        res <= num / den + 1,
{
    let floor: u128 = num / den;
    let rest: u128 = num % den;
    assert(floor <= num) by (nonlinear_arith)
        requires
            den > 0,
            floor == num / den,
    ;
    if 2 * rest < den || (2 * rest == den && floor % 2 == 0) {
        floor
    } else {
        floor + 1
    }
}

fn round_to_double(n: u128) -> (res: u128)
    requires
        n <= 0xffff_ffff_0000_0000,
    ensures
        res == rounded(n as nat),
        res <= 0x1_0000_0000_0000_0000,
        res <= n + 0x1000,
{
    let mut unit: u128 = 1;
    while n >= SIGNIFICANDS * unit
        invariant
            n <= 0xffff_ffff_0000_0000,
            1 <= unit <= 0x1000,
            unit_for(n as nat, 1) == unit_for(n as nat, unit as nat),
        decreases 2 * n - unit,
    {
        unit = 2 * unit;
    }
    let count: u128 = divide_half_even(n, unit);
    proof {
        assert(count * unit <= n + unit) by (nonlinear_arith)
            requires
                count <= n / unit + 1,
                unit > 0,
        ;
    }
    count * unit
}

fn divide_and_truncate(num: u128, den: u32) -> (res: u128)
    requires
        num <= 0x1_0000_0000_0000_0000,
        den > 0,
    ensures
        res == truncated_quotient(num as nat, den as nat),
{
    let den: u128 = den as u128;
    let mut n: u128 = num;
    let mut scale: u128 = 1;
    while n != 0 && 2 * n < SIGNIFICANDS * den
        invariant
            0 < den <= 0xffff_ffff,
            n <= 0x20_0000_0000_0000 * 0x1_0000_0000,
            n != 0 ==> scale <= n,
            n == 0 ==> scale == 1,
            0 < scale,
            normalized(num as nat, den as nat, 1) == normalized(
                n as nat,
                den as nat,
                scale as nat,
            ),
        decreases SIGNIFICANDS * den - n,
    {
        n = 2 * n;
        scale = 2 * scale;
    }
    let quotient: u128 = divide_half_even(n, den);
    quotient / scale
}

/// `(a as f64 * b as f64 / c as f64) as i32`, for an `a` that is not negative.
pub fn scale_coordinate(a: u32, b: u32, c: u32) -> (res: i32)
    ensures
        res == scaled(a as nat, b as nat, c as nat, i32::MAX as nat),
{
    scale(a, b, c, 0x7fff_ffff) as i32
}

/// `(a as f64 * b as f64 / c as f64) as u32`.
pub fn scale_length(a: u32, b: u32, c: u32) -> (res: u32)
    ensures
        res == scaled(a as nat, b as nat, c as nat, u32::MAX as nat),
{
    scale(a, b, c, u32::MAX)
}

/// `(offset as f64 * scale as f64) as i64`.
pub fn scale_offset(offset: i64, scale: i32) -> (res: i64)
    requires
        -0xffff_ffff <= offset <= 0xffff_ffff,
        scale > 0,
    ensures
        res == scaled_offset(offset as int, scale as int),
{
    let distance: u128 = if offset >= 0 {
        offset as u128
    } else {
        (-offset) as u128
    };
    proof {
        assert(0 <= distance * scale <= 0xffff_ffff * 0x7fff_ffff) by (nonlinear_arith)
            requires
                distance <= 0xffff_ffff,
                0 < scale <= 0x7fff_ffff,
        ;
    }
    let product: u128 = round_to_double(distance * scale as u128);
    if offset >= 0 {
        product as i64
    } else {
        -(product as i64)
    }
}

fn scale(a: u32, b: u32, c: u32, limit: u32) -> (res: u32)
    ensures
        res == scaled(a as nat, b as nat, c as nat, limit as nat),
        res <= limit,
{
    proof {
        assert(a * b <= 0xffff_ffff * 0xffff_ffff) by (nonlinear_arith)
            requires
                a <= 0xffff_ffff,
                b <= 0xffff_ffff,
        ;
        assert(0 <= a * b) by (nonlinear_arith);
    }
    let product: u128 = a as u128 * b as u128;
    if c == 0 {
        if product == 0 {
            0
        } else {
            limit
        }
    } else {
        let quotient: u128 = divide_and_truncate(round_to_double(product), c);
        if quotient >= limit as u128 {
            limit
        } else {
            quotient as u32
        }
    }
}

/// What doubling keeps of a quotient, and how far it goes.
proof fn lemma_normalized(num: nat, den: nat, scale: nat)
    requires
        num > 0,
        den > 0,
        scale > 0,
    ensures
        ({
            let (n, s) = normalized(num, den, scale);
            &&& s > 0
            &&& n * scale == num * s
            &&& 2 * n >= SIGNIFICANDS * den
        }),
    decreases SIGNIFICANDS * den - num,
{
    if 2 * num < SIGNIFICANDS * den {
        lemma_normalized(2 * num, den, 2 * scale);
        let (n, s) = normalized(num, den, scale);
        assert(n * (2 * scale) == (2 * num) * s);
        assert(n * scale == num * s) by (nonlinear_arith)
            requires
                n * (2 * scale) == (2 * num) * s,
        ;
    }
}

proof fn lemma_small_is_exact(n: nat)
    requires
        n < SIGNIFICANDS,
    ensures
        rounded(n) == n,
{
    assert(round_half_even(n, 1) == n);
    assert(unit_for(n, 1) == 1);
    assert(rounded(n) == n * 1);
}

/// The unit is the given one, or at most twice as large as it has to be.
proof fn lemma_unit_for(n: nat, unit: nat)
    requires
        unit > 0,
    ensures
        unit_for(n, unit) >= unit,
        unit_for(n, unit) == unit || 2 * n >= SIGNIFICANDS * unit_for(n, unit),
    decreases 2 * n - unit,
{
    if n >= SIGNIFICANDS * unit {
        lemma_unit_for(n, 2 * unit);
    }
}

/// Rounding does not lead below 2^53 what is not below it.
pub proof fn lemma_rounding_keeps_large(n: nat)
    requires
        n >= SIGNIFICANDS,
    ensures
        rounded(n) >= SIGNIFICANDS,
{
    lemma_unit_for(n, 2);
    let unit = unit_for(n, 1);
    assert(unit == unit_for(n, 2));
    let count = round_half_even(n, unit);
    let half: nat = 0x10_0000_0000_0000;
    assert(n / unit >= half) by (nonlinear_arith)
        requires
            n >= half * unit,
            unit >= 2,
    ;
    assert(count * unit >= 2 * half) by (nonlinear_arith)
        requires
            count >= half,
            unit >= 2,
    ;
}

/// An offset is scaled exactly as long as the product has at most 53 bits.
pub proof fn law_offsets_are_exact(offset: int, scale: int)
    requires
        scale > 0,
        -SIGNIFICANDS < offset * scale < SIGNIFICANDS,
    ensures
        scaled_offset(offset, scale) == offset * scale,
{
    assert(-offset * scale == -(offset * scale)) by (nonlinear_arith);
    if offset >= 0 {
        assert(offset * scale >= 0) by (nonlinear_arith)
            requires
                offset >= 0,
                scale > 0,
        ;
        lemma_small_is_exact((offset * scale) as nat);
    } else {
        assert(-offset * scale >= 0) by (nonlinear_arith)
            requires
                offset < 0,
                scale > 0,
        ;
        lemma_small_is_exact((-offset * scale) as nat);
    }
}

/// Scaling is exact on the coordinates of real screens: as long as the product
/// has at most 53 bits, the result is the quotient, cut to an integer.
pub proof fn law_scaling_is_exact(a: nat, b: nat, c: nat, limit: nat)
    requires
        c > 0,
        a * b < SIGNIFICANDS,
    ensures
        scaled(a, b, c, limit) == min((a * b) as int / c as int, limit as int),
{
    let p = a * b;
    lemma_small_is_exact(p);
    if p == 0 {
        assert(0nat / c == 0 && 0nat % c == 0) by (nonlinear_arith)
            requires
                c > 0,
        ;
        assert(round_half_even(0, c) == 0);
        assert(0nat / 1nat == 0);
    } else {
        lemma_normalized(p, c, 1);
        let (n, s) = normalized(p, c, 1);
        let m = round_half_even(n, c);
        let t = p / c;
        let floor = n / c;
        let rest = n % c;
        assert(n == p * s);
        // A unit of the quotient's last place is more than half a `c`-th.
        assert(2 * s > c) by (nonlinear_arith)
            requires
                2 * (p * s) >= SIGNIFICANDS * c,
                p < SIGNIFICANDS,
                p > 0,
                c > 0,
        ;
        assert(p == t * c + p % c && p % c < c) by (nonlinear_arith)
            requires
                c > 0,
                t == p / c,
        ;
        let p_rest = p % c;
        assert(p + 1 <= (t + 1) * c) by (nonlinear_arith)
            requires
                p == t * c + p_rest,
                p_rest < c,
        ;
        assert(n == floor * c + rest && rest < c) by (nonlinear_arith)
            requires
                c > 0,
                floor == n / c,
                rest == n % c,
        ;
        assert(t * s <= floor) by (nonlinear_arith)
            requires
                p * s == floor * c + rest,
                rest < c,
                p >= t * c,
                c > 0,
        ;
        assert(m < (t + 1) * s) by (nonlinear_arith)
            requires
                p * s == floor * c + rest,
                rest < c,
                p + 1 <= (t + 1) * c,
                c > 0,
                2 * s > c,
                m == floor || (m == floor + 1 && 2 * rest >= c),
        ;
        assert(m / s == t) by (nonlinear_arith)
            requires
                t * s <= m,
                m < (t + 1) * s,
                s > 0,
        ;
    }
}

/// Rounding goes to the nearest number that a double has, and where two are equally near,
/// to the one with an even last place. From `2^(52 + j)` up to `2^(53 + j)` doubles are
/// `unit == 2^j` apart.
pub proof fn law_rounding_is_to_the_nearest(n: nat, j: nat)
    requires
        n < SIGNIFICANDS * pow2(j),
        j > 0 ==> 2 * n >= SIGNIFICANDS * pow2(j),
    ensures
        ({
            let unit = pow2(j) as int;
            let r = rounded(n) as int;
            &&& exists|count: int|
                {
                    &&& r == #[trigger] (count * unit)
                    &&& 2 * r - 2 * n == unit || 2 * n - 2 * r == unit ==> count % 2 == 0
                }
            &&& 2 * r - 2 * n <= unit
            &&& 2 * n - 2 * r <= unit
        }),
{
    lemma_pow2_pos(j);
    lemma_unit_is_power(n, 0, j);
    lemma2_to64();
    let unit = pow2(j);
    assert(unit_for(n, 1) == unit);
    let floor = n / unit;
    let rest = n % unit;
    let count = round_half_even(n, unit);
    assert(n == floor * unit + rest && rest < unit) by (nonlinear_arith)
        requires
            unit > 0,
            floor == n / unit,
            rest == n % unit,
    ;
    assert((floor + 1) * unit == floor * unit + unit) by (nonlinear_arith);
    assert(rounded(n) == count * unit);
    let r = count as int * unit as int;
    assert(r == rounded(n));
}

proof fn lemma_unit_is_power(n: nat, i: nat, j: nat)
    requires
        i <= j,
        n < SIGNIFICANDS * pow2(j),
        j > 0 ==> 2 * n >= SIGNIFICANDS * pow2(j),
    ensures
        unit_for(n, pow2(i)) == pow2(j),
    decreases j - i,
{
    lemma_pow2_pos(i);
    lemma_pow2_pos(j);
    if i < j {
        lemma_pow2_unfold((i + 1) as nat);
        lemma_unit_is_power(n, (i + 1) as nat, j);
        assert(pow2((i + 1) as nat) <= pow2(j)) by {
            if i + 1 < j {
                lemma_pow2_strictly_increases((i + 1) as nat, j);
            }
        }
        assert(n >= SIGNIFICANDS * pow2(i));
    }
}

/// Rounding changes a number by no more than its part in 2^53.
proof fn lemma_rounding_is_close(n: nat)
    ensures
        0x20_0000_0000_0000 * (rounded(n) - n) <= n,
        0x20_0000_0000_0000 * (n - rounded(n)) <= n,
{
    if n < SIGNIFICANDS {
        lemma_small_is_exact(n);
    } else {
        lemma_unit_for(n, 2);
        let unit = unit_for(n, 1);
        assert(unit == unit_for(n, 2));
        let floor = n / unit;
        let rest = n % unit;
        let count = round_half_even(n, unit);
        assert(n == floor * unit + rest && rest < unit) by (nonlinear_arith)
            requires
                unit > 0,
                floor == n / unit,
                rest == n % unit,
        ;
        assert((floor + 1) * unit == floor * unit + unit) by (nonlinear_arith);
        assert(rounded(n) == count * unit);
    }
}

/// Distances are scaled alike in both directions, and exactly but for the rounding: by
/// no more than the product's part in 2^53.
pub proof fn law_offsets_are_close(offset: int, scale: int)
    requires
        scale > 0,
    ensures
        scaled_offset(-offset, scale) == -scaled_offset(offset, scale),
        offset >= 0 ==> {
            &&& scaled_offset(offset, scale) >= 0
            &&& 0x20_0000_0000_0000 * (scaled_offset(offset, scale) - offset * scale) <= offset
                * scale
            &&& 0x20_0000_0000_0000 * (offset * scale - scaled_offset(offset, scale)) <= offset
                * scale
        },
{
    assert(-offset * scale == -(offset * scale) && -(-offset) * scale == offset * scale)
        by (nonlinear_arith);
    if offset == 0 {
        lemma_small_is_exact(0);
    }
    if offset >= 0 {
        assert(offset * scale >= 0) by (nonlinear_arith)
            requires
                offset >= 0,
                scale > 0,
        ;
        lemma_rounding_is_close((offset * scale) as nat);
    }
}

/// The integer part of a quotient is the quotient cut to an integer, but for the rounding,
/// which changes the quotient by no more than its part in 2^53.
proof fn lemma_quotient_is_close(num: nat, den: nat)
    requires
        den > 0,
    ensures
        0x20_0000_0000_0000 * (truncated_quotient(num, den) * den - num) <= num,
        0x20_0000_0000_0000 * (num - (truncated_quotient(num, den) + 1) * den) <= num,
{
    let t = truncated_quotient(num, den);
    if num == 0 {
        assert(normalized(0, den, 1) == (0nat, 1nat));
        assert(0nat / den == 0 && 0nat % den == 0) by (nonlinear_arith)
            requires
                den > 0,
        ;
        assert(round_half_even(0, den) == 0);
        assert(0nat / 1nat == 0);
        assert(t == 0);
        assert((t + 1) * den >= 0) by (nonlinear_arith);
        assert(t * den == 0) by (nonlinear_arith)
            requires
                t == 0,
        ;
    } else {
        lemma_normalized(num, den, 1);
        let (n, s) = normalized(num, den, 1);
        let m = round_half_even(n, den);
        let floor = n / den;
        let rest = n % den;
        assert(n == num * s);
        assert(n == floor * den + rest && rest < den) by (nonlinear_arith)
            requires
                den > 0,
                floor == n / den,
                rest == n % den,
        ;
        assert((floor + 1) * den == floor * den + den) by (nonlinear_arith);
        assert(2 * (m * den) - 2 * n <= den && 2 * n - 2 * (m * den) <= den);
        assert(t * s <= m && m < (t + 1) * s) by (nonlinear_arith)
            requires
                s > 0,
                t == m / s,
        ;
        let big: int = 0x20_0000_0000_0000;
        assert(big * den <= 2 * n);
        // Both sides multiplied by the scale.
        assert((t * s) * den <= m * den && m * den <= ((t + 1) * s) * den) by (nonlinear_arith)
            requires
                t * s <= m,
                m < (t + 1) * s,
        ;
        assert((t * s) * den == s * (t * den) && ((t + 1) * s) * den == s * ((t + 1) * den))
            by (nonlinear_arith);
        assert(big * (s * (t * den) - n) <= n && big * (n - s * ((t + 1) * den)) <= n)
            by (nonlinear_arith)
            requires
                big == 0x20_0000_0000_0000int,
                s * (t * den) <= m * den,
                m * den <= s * ((t + 1) * den),
                2 * (m * den) - 2 * n <= den,
                2 * n - 2 * (m * den) <= den,
                big * den <= 2 * n,
        ;
        let low = t * den;
        let high = (t + 1) * den;
        assert(big * (low - num) <= num && big * (num - high) <= num) by (nonlinear_arith)
            requires
                s > 0,
                n == num * s,
                big * (s * low - n) <= n,
                big * (n - s * high) <= n,
        ;
    }
}

/// Scaling gives the quotient, cut to an integer, but for the rounding, however large the
/// numbers are: it is off by no more than a part in 2^51. A quotient beyond the limit is
/// cut to it.
pub proof fn law_scaling_is_close(a: nat, b: nat, c: nat, limit: nat)
    requires
        c > 0,
    ensures
        ({
            let t = scaled(a, b, c, limit);
            &&& t <= limit
            &&& 0x8_0000_0000_0000 * (t * c - a * b) <= a * b
            &&& t < limit ==> 0x8_0000_0000_0000 * (a * b - (t + 1) * c) <= a * b
        }),
{
    let p = a * b;
    let r = rounded(p);
    let q = truncated_quotient(r, c);
    let t = scaled(a, b, c, limit);
    lemma_rounding_is_close(p);
    lemma_quotient_is_close(r, c);
    assert(t * c <= q * c) by (nonlinear_arith)
        requires
            t <= q,
    ;
    if t < limit {
        assert(t == q);
    }
}

/// Without a size to scale from, what is not zero becomes the largest number, and zero
/// stays zero.
pub proof fn law_scaling_without_a_size(a: nat, b: nat, limit: nat)
    ensures
        a > 0 && b > 0 ==> scaled(a, b, 0, limit) == limit,
        a == 0 || b == 0 ==> scaled(a, b, 0, limit) == 0,
{
    assert(a > 0 && b > 0 ==> a * b > 0) by (nonlinear_arith);
    assert(a == 0 || b == 0 ==> a * b == 0) by (nonlinear_arith);
}

} // verus!
