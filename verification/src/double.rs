//! Double precision numbers that are not negative, by their bits.
//!
//! The bits of such a number, read as an integer, have its exponent above the lowest 52 and its
//! fraction in them. So numbers compare as their bits do, and the next larger number has the next
//! larger bits. Every number is a multiple of the smallest positive one, which serves as the unit
//! here: two to the power of minus 1074.
use vstd::arithmetic::power2::{
    lemma2_to64, lemma2_to64_rest, lemma_pow2_adds, lemma_pow2_pos, lemma_pow2_strictly_increases,
    lemma_pow2_unfold, pow2,
};
use vstd::prelude::*;

verus! {

/// How many fractions there are to an exponent.
pub const FRACTIONS: u64 = 0x10_0000_0000_0000;

/// The bits of infinity, the upper end of the numbers.
pub const INFINITY: u64 = 0x7FF0_0000_0000_0000;

/// How many of the smallest positive numbers there are to one, as a power of two.
pub const ONE_EXPONENT: u32 = 1074;

/// The number that the bits stand for, counted in smallest positive numbers.
pub open spec fn units(bits: nat) -> nat {
    if bits < FRACTIONS {
        bits
    } else {
        (FRACTIONS + bits % (FRACTIONS as nat)) as nat * pow2(
            (bits / (FRACTIONS as nat) - 1) as nat,
        )
    }
}

/// One, counted in smallest positive numbers.
pub open spec fn one() -> nat {
    pow2(ONE_EXPONENT as nat)
}

/// The sum of a number and the next larger one, which is twice the number half way between them.
pub open spec fn midpoint2(bits: nat) -> nat {
    units(bits) + units(bits + 1)
}

/// Whether the number nearest to `num / den` units is the one with the given bits. Of two that are
/// equally near it is the one whose bits are even.
pub open spec fn rounds_to(num: nat, den: nat, bits: nat) -> bool {
    &&& 2 * num < midpoint2(bits) * den || (2 * num == midpoint2(bits) * den && bits % 2 == 0)
    &&& bits > 0 ==> (2 * num > midpoint2((bits - 1) as nat) * den || (2 * num == midpoint2(
        (bits - 1) as nat,
    ) * den && bits % 2 == 0))
}

/// The bits of the number nearest to `num / den` units. What is too large is infinite.
pub open spec fn nearest(num: nat, den: nat) -> nat {
    let bits = choose|bits: nat| rounds_to(num, den, bits);
    if bits < INFINITY {
        bits
    } else {
        INFINITY as nat
    }
}

/// What `units` is for bits that are put together from an exponent and a significand. The
/// significand may be one past the largest.
proof fn lemma_units_at(exponent: nat, significand: nat)
    requires
        significand <= 2 * FRACTIONS,
        exponent == 0 || significand >= FRACTIONS,
    ensures
        units(exponent * FRACTIONS as nat + significand) == significand * pow2(exponent),
{
    let c = FRACTIONS as nat;
    let bits = exponent * c + significand;
    lemma2_to64();
    if significand < c {
        assert(bits == significand) by (nonlinear_arith)
            requires
                bits == exponent * c + significand,
                exponent == 0,
        ;
    } else if significand < 2 * c {
        assert(bits == (exponent + 1) * c + (significand - c)) by (nonlinear_arith)
            requires
                bits == exponent * c + significand,
        ;
        vstd::arithmetic::div_mod::lemma_fundamental_div_mod_converse(
            bits as int,
            c as int,
            exponent as int + 1,
            significand - c,
        );
        assert((exponent + 1) * c >= c) by (nonlinear_arith)
            requires
                exponent >= 0,
        ;
    } else {
        assert(bits == (exponent + 2) * c) by (nonlinear_arith)
            requires
                bits == exponent * c + 2 * c,
        ;
        vstd::arithmetic::div_mod::lemma_fundamental_div_mod_converse(
            bits as int,
            c as int,
            exponent as int + 2,
            0,
        );
        assert((exponent + 2) * c >= c) by (nonlinear_arith)
            requires
                exponent >= 0,
        ;
        lemma_pow2_unfold(exponent + 1);
        assert(c * (2 * pow2(exponent)) == (2 * c) * pow2(exponent)) by (nonlinear_arith);
    }
}

/// The exponent and the significand of bits.
proof fn lemma_split(bits: nat) -> (parts: (nat, nat))
    ensures
        parts.1 < 2 * FRACTIONS,
        parts.0 == 0 || parts.1 >= FRACTIONS,
        bits == parts.0 * FRACTIONS as nat + parts.1,
        units(bits) == parts.1 * pow2(parts.0),
        units(bits + 1) == (parts.1 + 1) * pow2(parts.0),
{
    let c = FRACTIONS as nat;
    let parts: (nat, nat) = if bits < c {
        (0, bits)
    } else {
        vstd::arithmetic::div_mod::lemma_fundamental_div_mod(bits as int, c as int);
        ((bits / c - 1) as nat, c + bits % c)
    };
    assert(bits == parts.0 * c + parts.1) by (nonlinear_arith)
        requires
            bits < c ==> parts == (0nat, bits),
            bits >= c ==> parts.0 == bits / c - 1 && parts.1 == c + bits % c && bits == c * (bits
                / c) + bits % c,
    ;
    lemma_units_at(parts.0, parts.1);
    lemma_units_at(parts.0, parts.1 + 1);
    parts
}

/// Larger bits stand for a larger number.
pub proof fn law_units_increase(low: nat, high: nat)
    requires
        low < high,
    ensures
        units(low) < units(high),
    decreases high,
{
    let before = (high - 1) as nat;
    let parts = lemma_split(before);
    lemma_pow2_pos(parts.0);
    assert((parts.1 + 1) * pow2(parts.0) > parts.1 * pow2(parts.0)) by (nonlinear_arith)
        requires
            pow2(parts.0) > 0,
    ;
    if low < before {
        law_units_increase(low, before);
    }
}

/// Numbers half way between neighbours increase with the bits.
proof fn lemma_midpoints_increase(low: nat, high: nat)
    requires
        low < high,
    ensures
        midpoint2(low) < midpoint2(high),
{
    law_units_increase(low, high);
    law_units_increase(low + 1, high + 1);
}

/// A larger amount is never rounded to a smaller number.
pub proof fn law_rounding_is_monotone(low: nat, high: nat, den: nat, a: nat, b: nat)
    requires
        low <= high,
        den > 0,
        rounds_to(low, den, a),
        rounds_to(high, den, b),
    ensures
        a <= b,
{
    if b < a {
        let p = (a - 1) as nat;
        // high is at most the midpoint above b, low is at least the midpoint below a.
        if b < p {
            lemma_midpoints_increase(b, p);
            assert(midpoint2(b) * den < midpoint2(p) * den) by (nonlinear_arith)
                requires
                    midpoint2(b) < midpoint2(p),
                    den > 0,
            ;
        }
    }
}

/// There is one nearest number at most.
pub proof fn law_rounding_is_unique(num: nat, den: nat, a: nat, b: nat)
    requires
        den > 0,
        rounds_to(num, den, a),
        rounds_to(num, den, b),
    ensures
        a == b,
{
    law_rounding_is_monotone(num, num, den, a, b);
    law_rounding_is_monotone(num, num, den, b, a);
}

/// A number is the nearest one to itself.
pub proof fn law_rounding_keeps_numbers(bits: nat, den: nat)
    requires
        den > 0,
    ensures
        rounds_to(units(bits) * den, den, bits),
{
    law_units_increase(bits, bits + 1);
    assert(2 * (units(bits) * den) < midpoint2(bits) * den) by (nonlinear_arith)
        requires
            2 * units(bits) < midpoint2(bits),
            den > 0,
    ;
    if bits > 0 {
        let before = (bits - 1) as nat;
        law_units_increase(before, bits);
        assert(2 * (units(bits) * den) > midpoint2(before) * den) by (nonlinear_arith)
            requires
                2 * units(bits) > midpoint2(before),
                den > 0,
        ;
    }
}

/// There is a nearest number.
pub proof fn law_rounding_exists(num: nat, den: nat) -> (bits: nat)
    requires
        den > 0,
    ensures
        rounds_to(num, den, bits),
        nearest(num, den) == if bits < INFINITY {
            bits
        } else {
            INFINITY as nat
        },
{
    let bits = lemma_search(num, den, 0);
    let chosen = choose|bits: nat| rounds_to(num, den, bits);
    law_rounding_is_unique(num, den, bits, chosen);
    bits
}

/// The nearest number, given that it is not below `from`.
proof fn lemma_search(num: nat, den: nat, from: nat) -> (bits: nat)
    requires
        den > 0,
        from > 0 ==> (2 * num > midpoint2((from - 1) as nat) * den || (2 * num == midpoint2(
            (from - 1) as nat,
        ) * den && from % 2 == 0)),
    ensures
        rounds_to(num, den, bits),
    decreases 2 * num + 2 - from,
{
    if 2 * num < midpoint2(from) * den || (2 * num == midpoint2(from) * den && from % 2 == 0) {
        from
    } else {
        lemma_units_at_least(from);
        lemma_units_at_least(from + 1);
        assert(midpoint2(from) * den >= from) by (nonlinear_arith)
            requires
                midpoint2(from) >= from,
                den > 0,
        ;
        lemma_search(num, den, from + 1)
    }
}

/// A number is at least as many units as its bits say.
proof fn lemma_units_at_least(bits: nat)
    ensures
        units(bits) >= bits,
    decreases bits,
{
    if bits > 0 {
        lemma_units_at_least((bits - 1) as nat);
        law_units_increase((bits - 1) as nat, bits);
    }
}

/// Rounding a quotient of integers to an even one rounds to the nearest number, where the quotient
/// has the size of a significand at the given exponent.
proof fn lemma_significand_rounds(
    num: nat,
    den: nat,
    p: nat,
    w: nat,
    d: nat,
    exponent: nat,
    q: nat,
)
    requires
        num == p * w,
        pow2(exponent) * den == d * w,
        w > 0,
        d > 0,
        den > 0,
        2 * p < (2 * q + 1) * d || (2 * p == (2 * q + 1) * d && q % 2 == 0),
        q > 0 ==> (2 * p > (2 * q - 1) * d || (2 * p == (2 * q - 1) * d && q % 2 == 0)),
        q <= 2 * FRACTIONS,
        exponent == 0 || q >= FRACTIONS,
        exponent > 0 ==> p >= FRACTIONS * d,
        q == 2 * FRACTIONS ==> p < 2 * FRACTIONS * d,
    ensures
        rounds_to(num, den, exponent * FRACTIONS as nat + q),
{
    let c = FRACTIONS as nat;
    let bits = exponent * c + q;
    let x = pow2(exponent);
    lemma_units_at(exponent, q);
    assert(bits % 2 == q % 2) by {
        assert(exponent * c == 2 * (exponent * (c / 2))) by (nonlinear_arith)
            requires
                c == 2 * (c / 2),
        ;
    }
    // The number itself, in terms of the quotient.
    assert(units(bits) * den == q * (d * w)) by (nonlinear_arith)
        requires
            units(bits) == q * x,
            x * den == d * w,
    ;
    assert(d * w > 0) by (nonlinear_arith)
        requires
            d > 0,
            w > 0,
    ;
    if q < 2 * c {
        lemma_units_at(exponent, q + 1);
        assert(midpoint2(bits) * den == (2 * q + 1) * d * w) by (nonlinear_arith)
            requires
                midpoint2(bits) == q * x + (q + 1) * x,
                x * den == d * w,
        ;
        assert(2 * p < (2 * q + 1) * d ==> 2 * num < (2 * q + 1) * d * w) by (nonlinear_arith)
            requires
                num == p * w,
                w > 0,
        ;
        assert(2 * p == (2 * q + 1) * d ==> 2 * num == (2 * q + 1) * d * w) by (nonlinear_arith)
            requires
                num == p * w,
        ;
    } else {
        law_units_increase(bits, bits + 1);
        let (mid, u) = (midpoint2(bits), units(bits));
        assert(p * w < (q * d) * w) by (nonlinear_arith)
            requires
                w > 0,
                p < q * d,
        ;
        assert((q * d) * w == q * (d * w)) by (nonlinear_arith);
        assert(mid * den >= 2 * (u * den)) by (nonlinear_arith)
            requires
                mid >= 2 * u,
        ;
    }
    if bits > 0 {
        let before = (bits - 1) as nat;
        if q > 0 && (q > c || exponent == 0) {
            lemma_units_at(exponent, (q - 1) as nat);
            assert(before == exponent * c + (q - 1) as nat);
            assert(midpoint2(before) * den == (2 * q - 1) * d * w) by (nonlinear_arith)
                requires
                    midpoint2(before) == (q - 1) * x + q * x,
                    x * den == d * w,
            ;
            assert(2 * p > (2 * q - 1) * d ==> 2 * num > (2 * q - 1) * d * w) by (nonlinear_arith)
                requires
                    num == p * w,
                    w > 0,
            ;
            assert(2 * p == (2 * q - 1) * d ==> 2 * num == (2 * q - 1) * d * w)
                by (nonlinear_arith)
                requires
                    num == p * w,
            ;
        } else {
            assert(exponent == 0 ==> bits == q) by (nonlinear_arith)
                requires
                    bits == exponent * c + q,
            ;
            law_units_increase(before, bits);
            let (mid, u) = (midpoint2(before), units(bits));
            assert(p * w >= (q * d) * w) by (nonlinear_arith)
                requires
                    p >= q * d,
            ;
            assert((q * d) * w == q * (d * w)) by (nonlinear_arith);
            assert(mid * den < 2 * (u * den)) by (nonlinear_arith)
                requires
                    mid < 2 * u,
                    den > 0,
            ;
        }
    }
}

/// Two to the power of `exponent`.
fn power_of_two(exponent: u32) -> (power: u128)
    requires
        exponent < 128,
    ensures
        power == pow2(exponent as nat),
{
    let mut power: u128 = 1;
    let mut i: u32 = 0;
    proof {
        lemma2_to64();
    }
    while i < exponent
        invariant
            i <= exponent < 128,
            power == pow2(i as nat),
        decreases exponent - i,
    {
        proof {
            lemma_pow2_unfold((i + 1) as nat);
            lemma_power_fits((i + 1) as nat);
        }
        power = power * 2;
        i = i + 1;
    }
    power
}

/// Powers of two below the hundred and twenty eighth fit.
proof fn lemma_power_fits(exponent: nat)
    requires
        exponent < 128,
    ensures
        pow2(exponent) <= 0x8000_0000_0000_0000_0000_0000_0000_0000,
{
    lemma2_to64_rest();
    lemma_pow2_adds(63, 64);
    if exponent < 127 {
        lemma_pow2_strictly_increases(exponent, 127);
    }
}

/// Rounds `p` times two to the power of `up`, over two to the power of `down`, to the nearest
/// number.
#[verifier::rlimit(40)]
fn round(p: u128, up: u32, down: u32) -> (bits: u64)
    requires
        p < 0x4000_0000_0000_0000_0000_0000_0000,
        up <= down + 3_900,
        down <= 4_000,
    ensures
        rounds_to(p as nat * pow2(up as nat), pow2(down as nat), bits as nat),
{
    let ghost num = p as nat * pow2(up as nat);
    let ghost den = pow2(down as nat);
    let mut p: u128 = p;
    let mut up: u32 = up;
    proof {
        lemma_pow2_pos(down as nat);
    }
    // A short significand is lengthened as far as the exponent allows.
    while up > down && p < FRACTIONS as u128
        invariant
            p < 0x4000_0000_0000_0000_0000_0000_0000,
            up <= down + 3_900,
            down <= 4_000,
            num == p as nat * pow2(up as nat),
        decreases up,
    {
        proof {
            lemma_pow2_unfold(up as nat);
            assert(p * (2 * pow2((up - 1) as nat)) == (p * 2) * pow2((up - 1) as nat))
                by (nonlinear_arith);
        }
        p = p * 2;
        up = up - 1;
    }
    let mut shift: u32 = if up < down {
        down - up
    } else {
        0
    };
    if shift >= 128 {
        proof {
            lemma_pow2_strictly_increases(127, shift as nat);
            lemma_power_fits(126);
            lemma2_to64_rest();
            lemma_pow2_adds(63, 64);
            lemma_pow2_adds(shift as nat, up as nat);
            lemma_pow2_pos(up as nat);
            lemma2_to64();
            assert(1 * den == den) by (nonlinear_arith);
            lemma_significand_rounds(
                num,
                den,
                p as nat,
                pow2(up as nat),
                pow2(shift as nat),
                0,
                0,
            );
        }
        return 0;
    }
    let mut divisor: u128 = power_of_two(shift);
    let ghost first = shift;
    proof {
        lemma_pow2_pos(shift as nat);
    }
    // A long one is shortened.
    while p / divisor >= 2 * FRACTIONS as u128
        invariant
            p < 0x4000_0000_0000_0000_0000_0000_0000,
            first <= shift < 128,
            divisor == pow2(shift as nat),
            divisor > 0,
            shift > first ==> p >= FRACTIONS * divisor,
        decreases p / divisor,
    {
        proof {
            assert(p >= 2 * FRACTIONS * divisor) by (nonlinear_arith)
                requires
                    p / divisor >= 2 * FRACTIONS,
                    divisor > 0,
            ;
            lemma_pow2_unfold((shift + 1) as nat);
            lemma_shorter(p as nat, divisor as nat);
            assert(shift < 120) by {
                if shift >= 120 {
                    lemma2_to64_rest();
                    lemma_pow2_adds(60, 60);
                    if shift > 120 {
                        lemma_pow2_strictly_increases(120, shift as nat);
                    }
                }
            }
            lemma_power_fits((shift + 1) as nat);
        }
        divisor = divisor * 2;
        shift = shift + 1;
    }
    let whole: u128 = p / divisor;
    let rest: u128 = p % divisor;
    proof {
        vstd::arithmetic::div_mod::lemma_fundamental_div_mod(p as int, divisor as int);
        lemma_power_fits(shift as nat);
    }
    let q: u128 = if 2 * rest > divisor || (2 * rest == divisor && whole % 2 == 1) {
        whole + 1
    } else {
        whole
    };
    let exponent: u32 = shift + up - down;
    proof {
        lemma_pow2_adds(exponent as nat, down as nat);
        lemma_pow2_adds(shift as nat, up as nat);
        lemma_pow2_pos(up as nat);
        lemma_quotient_rounds(p as nat, divisor as nat, whole as nat, rest as nat, q as nat);
        if exponent > 0 {
            assert(p >= FRACTIONS * divisor) by {
                if shift == first {
                    lemma2_to64();
                }
            }
            assert(whole >= FRACTIONS) by (nonlinear_arith)
                requires
                    p >= FRACTIONS * divisor,
                    p == divisor * whole + rest,
                    rest < divisor,
            ;
        }
        if q == 2 * FRACTIONS {
            assert(p < 2 * FRACTIONS * divisor) by (nonlinear_arith)
                requires
                    p == divisor * whole + rest,
                    rest < divisor,
                    whole < 2 * FRACTIONS,
            ;
        }
        lemma_significand_rounds(
            num,
            den,
            p as nat,
            pow2(up as nat),
            divisor as nat,
            exponent as nat,
            q as nat,
        );
    }
    exponent as u64 * FRACTIONS + q as u64
}

/// The bits of the product of two finite numbers, rounded to the nearest number.
pub open spec fn product_of(a: nat, b: nat) -> nat {
    nearest(units(a) * units(b), one())
}

/// The bits of an integer, rounded to the nearest number.
pub open spec fn integer_of(n: nat) -> nat {
    nearest(n * one(), 1)
}

/// The exponent and the significand of bits.
fn split(bits: u64) -> (parts: (u32, u64))
    ensures
        units(bits as nat) == parts.1 as nat * pow2(parts.0 as nat),
        parts.1 < 2 * FRACTIONS,
        parts.0 == 0 || parts.1 >= FRACTIONS,
        bits < INFINITY ==> parts.0 <= 2_045,
        parts.0 <= 4_095,
{
    proof {
        let parts = lemma_split(bits as nat);
        lemma2_to64();
    }
    if bits < FRACTIONS {
        (0, bits)
    } else {
        ((bits / FRACTIONS - 1) as u32, FRACTIONS + bits % FRACTIONS)
    }
}

/// Rounds as `round` does, and takes what is too large as infinite.
fn round_to_number(p: u128, up: u32, down: u32) -> (bits: u64)
    requires
        p < 0x4000_0000_0000_0000_0000_0000_0000,
        up <= down + 3_900,
        down <= 4_000,
    ensures
        bits == nearest(p as nat * pow2(up as nat), pow2(down as nat)),
{
    let bits = round(p, up, down);
    proof {
        let num = p as nat * pow2(up as nat);
        let den = pow2(down as nat);
        lemma_pow2_pos(down as nat);
        let r = law_rounding_exists(num, den);
        law_rounding_is_unique(num, den, r, bits as nat);
    }
    if bits < INFINITY {
        bits
    } else {
        INFINITY
    }
}

/// The product of two finite numbers.
pub fn product(a: u64, b: u64) -> (bits: u64)
    requires
        a < INFINITY,
        b < INFINITY,
    ensures
        bits == product_of(a as nat, b as nat),
{
    let (exponent_a, significand_a) = split(a);
    let (exponent_b, significand_b) = split(b);
    proof {
        let (x, y) = (pow2(exponent_a as nat), pow2(exponent_b as nat));
        assert(significand_a * significand_b < 0x4000_0000_0000_0000_0000_0000_0000)
            by (nonlinear_arith)
            requires
                significand_a < 0x20_0000_0000_0000,
                significand_b < 0x20_0000_0000_0000,
        ;
        lemma_pow2_adds(exponent_a as nat, exponent_b as nat);
        assert((significand_a * x) * (significand_b * y) == (significand_a * significand_b) * (x
            * y)) by (nonlinear_arith);
    }
    let p: u128 = significand_a as u128 * significand_b as u128;
    round_to_number(p, exponent_a + exponent_b, ONE_EXPONENT)
}

/// An integer as a number.
pub fn from_integer(n: u128) -> (bits: u64)
    requires
        n < 0x4000_0000_0000_0000_0000_0000_0000,
    ensures
        bits == integer_of(n as nat),
{
    proof {
        lemma2_to64();
    }
    round_to_number(n, ONE_EXPONENT, 0)
}

/// How many millionths a number holds, rounded down. What does not fit becomes the largest count.
pub open spec fn millionths_of(bits: nat) -> nat {
    let count = units(bits) * 1_000_000 / one();
    if count <= u64::MAX {
        count
    } else {
        u64::MAX as nat
    }
}

/// How many millionths a number holds, rounded down.
pub fn millionths(bits: u64) -> (count: u64)
    ensures
        count == millionths_of(bits as nat),
{
    let (exponent, significand) = split(bits);
    let mut p: u128 = significand as u128 * 1_000_000;
    let ghost x = pow2(exponent as nat);
    proof {
        assert((significand * x) * 1_000_000 == (significand * 1_000_000) * x)
            by (nonlinear_arith);
        lemma_pow2_pos(ONE_EXPONENT as nat);
        lemma_pow2_pos(exponent as nat);
    }
    let ghost all = p as nat * x;
    if exponent < ONE_EXPONENT {
        let shift: u32 = ONE_EXPONENT - exponent;
        proof {
            lemma_pow2_adds(exponent as nat, shift as nat);
            lemma_pow2_pos(shift as nat);
            let d = pow2(shift as nat);
            // (p * x) / (x * d) == p / d
            assert(x * p == all) by (nonlinear_arith)
                requires
                    all == p * x,
            ;
            vstd::arithmetic::div_mod::lemma_div_denominator(all as int, x as int, d as int);
            vstd::arithmetic::div_mod::lemma_div_multiples_vanish(p as int, x as int);
            assert(units(bits as nat) * 1_000_000 / one() == p as nat / d);
        }
        if shift >= 128 {
            proof {
                lemma_pow2_strictly_increases(127, shift as nat);
                lemma2_to64_rest();
                lemma_pow2_adds(63, 64);
                vstd::arithmetic::div_mod::lemma_basic_div(p as int, pow2(shift as nat) as int);
            }
            return 0;
        }
        let count: u128 = p / power_of_two(shift);
        if count <= u64::MAX as u128 {
            count as u64
        } else {
            u64::MAX
        }
    } else {
        let mut left: u32 = exponent - ONE_EXPONENT;
        proof {
            lemma_pow2_adds(left as nat, ONE_EXPONENT as nat);
            let y = pow2(left as nat);
            assert(all == one() * (p * y)) by (nonlinear_arith)
                requires
                    all == p * x,
                    x == y * one(),
            ;
            vstd::arithmetic::div_mod::lemma_div_multiples_vanish((p * y) as int, one() as int);
        }
        let ghost count = p as nat * pow2(left as nat);
        assert(units(bits as nat) * 1_000_000 / one() == count);
        while left > 0 && p <= u64::MAX as u128
            invariant
                count == p as nat * pow2(left as nat),
                p <= 2 * u64::MAX + 0x200_0000_0000_0000_0000,
            decreases left,
        {
            proof {
                lemma_pow2_unfold(left as nat);
                assert(p * (2 * pow2((left - 1) as nat)) == (p * 2) * pow2((left - 1) as nat))
                    by (nonlinear_arith);
            }
            p = p * 2;
            left = left - 1;
        }
        proof {
            lemma2_to64();
            lemma_pow2_pos(left as nat);
            assert(count >= p) by (nonlinear_arith)
                requires
                    count == p * pow2(left as nat),
                    pow2(left as nat) >= 1,
            ;
        }
        assert(left == 0 ==> count == p) by (nonlinear_arith)
            requires
                count == p * pow2(left as nat),
                left == 0 ==> pow2(left as nat) == 1,
        ;
        if p <= u64::MAX as u128 {
            p as u64
        } else {
            u64::MAX
        }
    }
}

/// Multiplying by a factor of one at least never lowers a number, and multiplying by one of one at
/// most never raises it. A larger number has the larger product.
pub proof fn law_product_follows_the_factor(a: nat, b: nat, factor: nat)
    requires
        a <= b < INFINITY,
    ensures
        units(factor) >= one() ==> product_of(a, factor) >= a,
        units(factor) <= one() ==> product_of(a, factor) <= a,
        product_of(a, factor) <= product_of(b, factor),
{
    let d = one();
    lemma_pow2_pos(ONE_EXPONENT as nat);
    let r = law_rounding_exists(units(a) * units(factor), d);
    let t = law_rounding_exists(units(b) * units(factor), d);
    law_rounding_keeps_numbers(a, d);
    if units(factor) >= d {
        assert(units(a) * units(factor) >= units(a) * d) by (nonlinear_arith)
            requires
                units(factor) >= d,
        ;
        law_rounding_is_monotone(units(a) * d, units(a) * units(factor), d, a, r);
    }
    if units(factor) <= d {
        assert(units(a) * units(factor) <= units(a) * d) by (nonlinear_arith)
            requires
                units(factor) <= d,
        ;
        law_rounding_is_monotone(units(a) * units(factor), units(a) * d, d, r, a);
    }
    if a < b {
        law_units_increase(a, b);
    }
    assert(units(a) * units(factor) <= units(b) * units(factor)) by (nonlinear_arith)
        requires
            units(a) <= units(b),
    ;
    law_rounding_is_monotone(units(a) * units(factor), units(b) * units(factor), d, r, t);
}

/// The bits of a short significand times a power of two.
proof fn lemma_exact(significand: nat, exponent: nat) -> (bits: nat)
    requires
        significand <= 2 * FRACTIONS,
        exponent <= 1_074,
    ensures
        bits < INFINITY,
        units(bits) == significand * pow2(exponent),
    decreases exponent,
{
    if significand >= FRACTIONS || exponent == 0 {
        lemma_units_at(exponent, significand);
        exponent * FRACTIONS as nat + significand
    } else {
        lemma_pow2_unfold(exponent);
        let half = pow2((exponent - 1) as nat);
        assert((2 * significand) * half == significand * (2 * half)) by (nonlinear_arith);
        lemma_exact(2 * significand, (exponent - 1) as nat)
    }
}

/// Integers up to two to the power of 53 are numbers as they are.
pub proof fn law_integers_are_exact(n: nat)
    requires
        n <= 2 * FRACTIONS,
    ensures
        integer_of(n) < INFINITY,
        units(integer_of(n)) == n * one(),
{
    let bits = lemma_exact(n, ONE_EXPONENT as nat);
    law_rounding_keeps_numbers(bits, 1);
    assert(units(bits) * 1 == n * one()) by (nonlinear_arith)
        requires
            units(bits) == n * one(),
    ;
    let r = law_rounding_exists(n * one(), 1);
    law_rounding_is_unique(n * one(), 1, r, bits);
}

/// Integers up to two to the power of 53 compare as their bits do.
pub proof fn law_integers_compare(a: nat, b: nat)
    requires
        a <= 2 * FRACTIONS,
        b <= 2 * FRACTIONS,
    ensures
        integer_of(a) < integer_of(b) <==> a < b,
        integer_of(a) == integer_of(b) <==> a == b,
{
    law_integers_are_exact(a);
    law_integers_are_exact(b);
    lemma_pow2_pos(ONE_EXPONENT as nat);
    if integer_of(a) < integer_of(b) {
        law_units_increase(integer_of(a), integer_of(b));
    }
    if integer_of(b) < integer_of(a) {
        law_units_increase(integer_of(b), integer_of(a));
    }
    assert(a * one() < b * one() ==> a < b) by (nonlinear_arith)
        requires
            one() > 0,
    ;
    assert(b * one() < a * one() ==> b < a) by (nonlinear_arith)
        requires
            one() > 0,
    ;
    assert(a * one() == b * one() ==> a == b) by (nonlinear_arith)
        requires
            one() > 0,
    ;
}

/// When the product of an integer and a factor is rounded to an integer. The factor lies between
/// one half and two and comes with its significand. The integer lies between two powers of two,
/// and the exact product is closer to it than half the distance of the numbers there.
pub proof fn law_product_is_integer(
    n: nat,
    m: nat,
    e: nat,
    factor: nat,
    significand: nat,
    exponent: nat,
)
    requires
        n <= 2 * FRACTIONS,
        e <= 52,
        pow2(e) < m < pow2(e + 1),
        FRACTIONS <= significand < 2 * FRACTIONS,
        exponent <= 1_022,
        factor == exponent * FRACTIONS as nat + significand,
        2 * (n * significand) < 2 * (m * pow2((1_074 - exponent) as nat)) + pow2(
            (e + 1_022 - exponent) as nat,
        ),
        2 * (n * significand) > 2 * (m * pow2((1_074 - exponent) as nat)) - pow2(
            (e + 1_022 - exponent) as nat,
        ),
    ensures
        product_of(integer_of(n), factor) == integer_of(m),
{
    let x = pow2(exponent);
    let d = pow2((e + 1_022 - exponent) as nat);
    let k = pow2((1_074 - exponent) as nat);
    let t = pow2((52 - e) as nat);
    let c = FRACTIONS as nat;
    let q = m * t;
    let p = n * significand;
    let w = x * one();
    let num = units(integer_of(n)) * units(factor);
    lemma2_to64_rest();
    lemma_pow2_pos(ONE_EXPONENT as nat);
    lemma_pow2_pos(exponent);
    lemma_pow2_pos((e + 1_022 - exponent) as nat);
    lemma_pow2_pos((52 - e) as nat);
    lemma_units_near_one(factor, significand, exponent);
    law_integers_are_exact(n);
    assert(num == p * w) by (nonlinear_arith)
        requires
            num == (n * one()) * (significand * x),
            p == n * significand,
            w == x * one(),
    ;
    assert(w > 0) by (nonlinear_arith)
        requires
            w == x * one(),
            x > 0,
            one() > 0,
    ;
    lemma_pow2_adds((e + 1_022 - exponent) as nat, exponent);
    assert(pow2(e + 1_022) * one() == d * w) by (nonlinear_arith)
        requires
            pow2(e + 1_022) == d * x,
            w == x * one(),
    ;
    // The significand of the integer lies between its bounds.
    lemma_pow2_adds(e, (52 - e) as nat);
    lemma_pow2_adds(e + 1, (52 - e) as nat);
    assert(c < q < 2 * c) by (nonlinear_arith)
        requires
            q == m * t,
            pow2(e) < m < pow2(e + 1),
            pow2(e) * t == c,
            pow2(e + 1) * t == 2 * c,
            t > 0,
    ;
    lemma_pow2_adds((52 - e) as nat, (e + 1_022 - exponent) as nat);
    assert(q * d == m * k) by (nonlinear_arith)
        requires
            q == m * t,
            k == t * d,
    ;
    assert((2 * q + 1) * d == 2 * (m * k) + d && (2 * q - 1) * d == 2 * (m * k) - d)
        by (nonlinear_arith)
        requires
            q * d == m * k,
    ;
    assert(p >= c * d) by (nonlinear_arith)
        requires
            2 * p > (2 * q - 1) * d,
            q > c,
            d > 0,
    ;
    lemma_significand_rounds(num, one(), p, w, d, e + 1_022, q);
    let bits = (e + 1_022) * c + q;
    let r = law_rounding_exists(num, one());
    law_rounding_is_unique(num, one(), r, bits);
    // The integer has those bits.
    lemma_units_at(e + 1_022, q);
    lemma_pow2_adds((52 - e) as nat, e + 1_022);
    assert(units(bits) == m * one()) by (nonlinear_arith)
        requires
            units(bits) == (m * t) * pow2(e + 1_022),
            one() == t * pow2(e + 1_022),
    ;
    law_rounding_keeps_numbers(bits, 1);
    assert(units(bits) * 1 == m * one()) by (nonlinear_arith)
        requires
            units(bits) == m * one(),
    ;
    let v = law_rounding_exists(m * one(), 1);
    law_rounding_is_unique(m * one(), 1, v, bits);
}

/// A number between one and two, or between one half and one, with its significand. One is
/// `1023 * FRACTIONS`.
proof fn lemma_units_near_one(bits: nat, significand: nat, exponent: nat)
    requires
        FRACTIONS <= significand < 2 * FRACTIONS,
        exponent <= 1_022,
        bits == exponent * FRACTIONS as nat + significand,
    ensures
        units(bits) == significand * pow2(exponent),
        units(bits + 1) == (significand + 1) * pow2(exponent),
        one() == pow2((1_074 - exponent) as nat) * pow2(exponent),
{
    lemma_units_at(exponent, significand);
    lemma_units_at(exponent, significand + 1);
    lemma_pow2_adds((1_074 - exponent) as nat, exponent);
}

/// Which bits a fraction from one half to two has: those of the number nearest to it. With the
/// larger exponent it is one at least, with the smaller one it is one at most.
pub proof fn law_fraction_is_nearest(bits: nat, significand: nat, exponent: nat, num: nat, den: nat)
    requires
        FRACTIONS < significand < 2 * FRACTIONS,
        1_021 <= exponent <= 1_022,
        bits == exponent * FRACTIONS as nat + significand,
        den > 0,
        exponent == 1_022 ==> (2 * significand - 1) * den < 2 * num * FRACTIONS < (2 * significand
            + 1) * den,
        exponent == 1_021 ==> (2 * significand - 1) * den < 4 * num * FRACTIONS < (2 * significand
            + 1) * den,
    ensures
        nearest(num * one(), den) == bits,
        exponent == 1_022 ==> units(bits) >= one(),
        exponent == 1_021 ==> units(bits) <= one(),
{
    lemma2_to64_rest();
    let x = pow2(exponent);
    let y = pow2((1_074 - exponent) as nat);
    assert(y == if exponent == 1_022 {
        FRACTIONS as nat
    } else {
        2 * FRACTIONS as nat
    });
    assert((2 * significand - 1) * den < 2 * num * y < (2 * significand + 1) * den)
        by (nonlinear_arith)
        requires
            y == if exponent == 1_022 {
                FRACTIONS as nat
            } else {
                2 * FRACTIONS as nat
            },
            exponent == 1_022 || exponent == 1_021,
            exponent == 1_022 ==> (2 * significand - 1) * den < 2 * num * FRACTIONS < (2
                * significand + 1) * den,
            exponent == 1_021 ==> (2 * significand - 1) * den < 4 * num * FRACTIONS < (2
                * significand + 1) * den,
    ;
    let before = (bits - 1) as nat;
    lemma_units_near_one(bits, significand, exponent);
    lemma_units_near_one(before, (significand - 1) as nat, exponent);
    lemma_pow2_pos(exponent);
    assert(significand >= y ==> units(bits) >= one()) by (nonlinear_arith)
        requires
            one() == y * x,
            units(bits) == significand * x,
    ;
    assert(significand <= y ==> units(bits) <= one()) by (nonlinear_arith)
        requires
            one() == y * x,
            units(bits) == significand * x,
    ;
    assert(2 * (num * one()) < midpoint2(bits) * den) by (nonlinear_arith)
        requires
            one() == y * x,
            x > 0,
            midpoint2(bits) == significand * x + (significand + 1) * x,
            2 * num * y < (2 * significand + 1) * den,
    ;
    assert(2 * (num * one()) > midpoint2(before) * den) by (nonlinear_arith)
        requires
            one() == y * x,
            x > 0,
            midpoint2(before) == (significand - 1) * x + significand * x,
            2 * num * y > (2 * significand - 1) * den,
    ;
    let r = law_rounding_exists(num * one(), den);
    law_rounding_is_unique(num * one(), den, r, bits);
}

/// Doubling the divisor shortens a quotient.
proof fn lemma_shorter(p: nat, divisor: nat)
    requires
        divisor > 0,
        p >= divisor,
    ensures
        p / (divisor * 2) < p / divisor,
{
    vstd::arithmetic::div_mod::lemma_div_denominator(p as int, divisor as int, 2);
    assert(p / divisor >= 1) by (nonlinear_arith)
        requires
            divisor > 0,
            p >= divisor,
    ;
}

/// What rounding a quotient by its remainder does.
proof fn lemma_quotient_rounds(p: nat, d: nat, whole: nat, rest: nat, q: nat)
    requires
        p == d * whole + rest,
        rest < d,
        q == if 2 * rest > d || (2 * rest == d && whole % 2 == 1) {
            whole + 1
        } else {
            whole
        },
    ensures
        2 * p < (2 * q + 1) * d || (2 * p == (2 * q + 1) * d && q % 2 == 0),
        q > 0 ==> (2 * p > (2 * q - 1) * d || (2 * p == (2 * q - 1) * d && q % 2 == 0)),
{
    let t = d * whole;
    assert((2 * whole + 1) * d == 2 * t + d) by (nonlinear_arith)
        requires
            t == d * whole,
    ;
    assert((2 * (whole + 1) + 1) * d == 2 * t + 3 * d) by (nonlinear_arith)
        requires
            t == d * whole,
    ;
    assert((2 * whole - 1) * d == 2 * t - d) by (nonlinear_arith)
        requires
            t == d * whole,
    ;
}

/// Small bits stand for themselves, and the number doubles with every step of the exponent. One is
/// where the exponent says so.
pub proof fn law_units_double_with_the_exponent(bits: nat)
    ensures
        bits <= 2 * FRACTIONS ==> units(bits) == bits,
        bits >= FRACTIONS ==> units(bits + FRACTIONS as nat) == 2 * units(bits),
        units(0x3FF0_0000_0000_0000) == one(),
        one() == pow2(1_074),
{
    let c = FRACTIONS as nat;
    lemma2_to64();
    lemma2_to64_rest();
    if bits <= 2 * c {
        lemma_units_at(0, bits);
        assert(0 * c + bits == bits);
        assert(bits * pow2(0) == bits) by (nonlinear_arith)
            requires
                pow2(0) == 1,
        ;
    }
    if bits >= c {
        let parts = lemma_split(bits);
        assert(parts.1 >= c) by (nonlinear_arith)
            requires
                parts.0 == 0 || parts.1 >= c,
                bits == parts.0 * c + parts.1,
                bits >= c,
        ;
        lemma_units_at(parts.0 + 1, parts.1);
        lemma_pow2_unfold(parts.0 + 1);
        assert((parts.0 + 1) * c + parts.1 == bits + c) by (nonlinear_arith)
            requires
                bits == parts.0 * c + parts.1,
        ;
        assert(parts.1 * (2 * pow2(parts.0)) == 2 * (parts.1 * pow2(parts.0))) by (nonlinear_arith);
    }
    lemma_units_at(1_022, c);
    lemma_pow2_adds(52, 1_022);
    assert(1_022 * c + c == 0x3FF0_0000_0000_0000);
}

/// How far apart two amounts are.
pub open spec fn distance(a: nat, b: nat) -> nat {
    if a <= b {
        (b - a) as nat
    } else {
        (a - b) as nat
    }
}

/// Rounding gives the number than which no other is nearer. Where another one is as near, it gives
/// the one with even bits. It gives infinity from half way past the largest number on.
pub proof fn law_nothing_is_nearer(num: nat, den: nat, other: nat)
    requires
        den > 0,
    ensures
        ({
            let bits = nearest(num, den);
            let off = distance(units(bits) * den, num);
            let other_off = distance(units(other) * den, num);
            &&& bits <= INFINITY
            &&& bits == INFINITY <==> 2 * num >= (units((INFINITY - 1) as nat) + units(
                INFINITY as nat,
            )) * den
            &&& bits < INFINITY ==> off <= other_off
            &&& bits < INFINITY && other != bits && off == other_off ==> bits % 2 == 0
        }),
{
    let bits = law_rounding_exists(num, den);
    let last = (INFINITY - 1) as nat;
    if bits >= INFINITY {
        let before = (bits - 1) as nat;
        if last < before {
            lemma_midpoints_increase(last, before);
        }
        assert(midpoint2(last) * den <= midpoint2(before) * den) by (nonlinear_arith)
            requires
                midpoint2(last) <= midpoint2(before),
        ;
    } else {
        if bits < last {
            lemma_midpoints_increase(bits, last);
            assert(midpoint2(bits) * den < midpoint2(last) * den) by (nonlinear_arith)
                requires
                    midpoint2(bits) < midpoint2(last),
                    den > 0,
            ;
        }
        let x = units(bits);
        let z = units(other);
        if bits < other {
            let y = units(bits + 1);
            law_units_increase(bits, bits + 1);
            if bits + 1 < other {
                law_units_increase(bits + 1, other);
            }
            assert((x + y) * den == x * den + y * den) by (nonlinear_arith);
            assert(x * den < y * den <= z * den) by (nonlinear_arith)
                requires
                    x < y <= z,
                    den > 0,
            ;
        } else if other < bits {
            let y = units((bits - 1) as nat);
            law_units_increase((bits - 1) as nat, bits);
            if other < bits - 1 {
                law_units_increase(other, (bits - 1) as nat);
            }
            assert((y + x) * den == y * den + x * den) by (nonlinear_arith);
            assert(z * den <= y * den < x * den) by (nonlinear_arith)
                requires
                    z <= y < x,
                    den > 0,
            ;
        }
    }
}

/// No number is nearer to the exact product of two numbers than what multiplying gives.
pub proof fn law_no_product_is_nearer(a: nat, b: nat, other: nat)
    ensures
        ({
            let exact = units(a) * units(b);
            let bits = product_of(a, b);
            let off = distance(units(bits) * one(), exact);
            let other_off = distance(units(other) * one(), exact);
            &&& bits <= INFINITY
            &&& bits == INFINITY <==> 2 * exact >= (units((INFINITY - 1) as nat) + units(
                INFINITY as nat,
            )) * one()
            &&& bits < INFINITY ==> off <= other_off
            &&& bits < INFINITY && other != bits && off == other_off ==> bits % 2 == 0
        }),
{
    lemma_pow2_pos(ONE_EXPONENT as nat);
    law_nothing_is_nearer(units(a) * units(b), one(), other);
}

/// No number is nearer to an integer than the one that stands for it.
pub proof fn law_no_number_is_nearer_to_an_integer(n: nat, other: nat)
    ensures
        ({
            let bits = integer_of(n);
            let off = distance(units(bits), n * one());
            let other_off = distance(units(other), n * one());
            &&& bits <= INFINITY
            &&& bits == INFINITY <==> 2 * (n * one()) >= units((INFINITY - 1) as nat) + units(
                INFINITY as nat,
            )
            &&& bits < INFINITY ==> off <= other_off
            &&& bits < INFINITY && other != bits && off == other_off ==> bits % 2 == 0
        }),
{
    law_nothing_is_nearer(n * one(), 1, other);
}

/// The count of millionths is the largest that the number holds, as far as a count goes.
pub proof fn law_millionths_fit_the_number(bits: nat)
    ensures
        millionths_of(bits) <= u64::MAX,
        millionths_of(bits) * one() <= units(bits) * 1_000_000,
        millionths_of(bits) < u64::MAX ==> units(bits) * 1_000_000 < (millionths_of(bits) + 1)
            * one(),
{
    lemma_pow2_pos(ONE_EXPONENT as nat);
    let all = units(bits) * 1_000_000;
    let d = one();
    let whole = all / d;
    let count = millionths_of(bits);
    vstd::arithmetic::div_mod::lemma_fundamental_div_mod(all as int, d as int);
    assert(count * d <= all) by (nonlinear_arith)
        requires
            count <= whole,
            all == d * whole + all % d,
            d > 0,
    ;
    assert(all < (whole + 1) * d) by (nonlinear_arith)
        requires
            all == d * whole + all % d,
            all % d < d,
            d > 0,
    ;
}

} // verus!
