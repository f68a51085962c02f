//! Fixed-point quantities.
//!
//! Every physical quantity the rules compare or compute with is a whole number of
//! millionths of its unit: micrometres, micrometres per second, microradians,
//! microseconds, microhertz, or plain millionths for a fraction such as an intensity.
//! Pointer coordinates and drag deltas are thousandths of a CSS pixel.

use vstd::arithmetic::power2::{
    lemma2_to64, lemma2_to64_rest, lemma_pow2_adds, lemma_pow2_pos, lemma_pow2_strictly_increases,
    lemma_pow2_unfold, pow2,
};
use vstd::prelude::*;

verus! {

/// One whole unit, in millionths.
pub const MICRO: i64 = 1_000_000;

/// `x` limited to the closed range from `lo` to `hi`.
pub open spec fn clamp_int(x: int, lo: int, hi: int) -> int {
    if x < lo {
        lo
    } else if x > hi {
        hi
    } else {
        x
    }
}

/// The integer nearest to `n / d`; a half rounds up.
pub open spec fn div_round(n: int, d: int) -> int {
    (2 * n + d) / (2 * d)
}

/// Limits `x` to the closed range from `lo` to `hi`.
pub fn clamp_i64(x: i64, lo: i64, hi: i64) -> (r: i64)
    requires
        lo <= hi,
    ensures
        r == clamp_int(x as int, lo as int, hi as int),
{
    if x < lo {
        lo
    } else if x > hi {
        hi
    } else {
        x
    }
}

/// The nearest number that 64 bits hold.
pub open spec fn held(x: int) -> i64 {
    clamp_int(x, i64::MIN as int, i64::MAX as int) as i64
}

/// The nearest number that 64 bits hold.
pub fn hold(x: i128) -> (r: i64)
    ensures
        r == held(x as int),
{
    if x < i64::MIN as i128 {
        i64::MIN
    } else if x > i64::MAX as i128 {
        i64::MAX
    } else {
        x as i64
    }
}

/// The largest integer not above `n / d`.
pub fn floor_div(n: i128, d: i128) -> (q: i128)
    requires
        0 < d,
        d - n <= i128::MAX,
    ensures
        q == n as int / d as int,
{
    if n >= 0 {
        n / d
    } else {
        let m: i128 = (d - 1 - n) / d;
        proof {
            assert(-((d - 1 - n) / d as int) == n as int / d as int) by (nonlinear_arith)
                requires
                    0 < d,
                    n < 0,
            ;
        }
        -m
    }
}

/// The integer nearest to `n / d`; a half rounds up.
pub fn round_div(n: i128, d: i128) -> (q: i128)
    requires
        0 < d,
        d - n <= i128::MAX,
        d + n <= i128::MAX,
    ensures
        q == div_round(n as int, d as int),
{
    let q: i128 = floor_div(n, d);
    proof {
        vstd::arithmetic::div_mod::lemma_fundamental_div_mod(n as int, d as int);
        assert(d * q == q * d) by (nonlinear_arith);
        assert(0 <= n as int % d as int && (n as int % d as int) < d);
        rounded_from_floor(n as int, d as int);
    }
    let rest: i128 = n - q * d;
    if rest >= d - rest {
        q + 1
    } else {
        q
    }
}

proof fn rounded_from_floor(n: int, d: int)
    requires
        0 < d,
    ensures
        div_round(n, d) == n / d + (if 2 * (n % d) >= d {
            1int
        } else {
            0int
        }),
        d >= 1 && n >= 0 ==> n / d <= n,
        n < 0 ==> n / d >= n,
{
    let (q, r) = (n / d, n % d);
    vstd::arithmetic::div_mod::lemma_fundamental_div_mod(n, d);
    assert(d * q + r == n && 0 <= r < d);
    let carry = if 2 * r >= d {
        1int
    } else {
        0int
    };
    let rest = 2 * r + d - carry * (2 * d);
    assert(carry * (2 * d) == (if carry == 1 {
        2 * d
    } else {
        0
    }));
    assert(2 * n + d == (q + carry) * (2 * d) + rest) by (nonlinear_arith)
        requires
            d * q + r == n,
            rest == 2 * r + d - carry * (2 * d),
    ;
    vstd::arithmetic::div_mod::lemma_fundamental_div_mod_converse(
        2 * n + d,
        2 * d,
        q + carry,
        rest,
    );
    assert(n >= 0 ==> q <= n) by (nonlinear_arith)
        requires
            d * q + r == n,
            0 <= r,
            1 <= d,
    ;
    assert(n < 0 ==> q >= n) by (nonlinear_arith)
        requires
            d * q + r == n,
            r < d,
            1 <= d,
    ;
}

/// An IEEE single-precision number by its bits; none where the bits are no number.
pub open spec fn number(bits: u32) -> Option<u32> {
    if exponent(bits) == 255 && fraction(bits) != 0 {
        None
    } else {
        Some(bits)
    }
}

/// The exponent field of a single-precision number.
pub open spec fn exponent(bits: u32) -> int {
    (bits as int / 0x80_0000) % 256
}

/// The fraction field of a single-precision number.
pub open spec fn fraction(bits: u32) -> int {
    bits as int % 0x80_0000
}

/// The size of a finite single-precision number in millionths, to the nearest; a half rounds
/// away from zero. The number's size is its significand times two to a power from -149 to 104.
pub open spec fn micro_size(bits: u32) -> int {
    let e = exponent(bits);
    let (significand, power) = if e == 0 {
        (fraction(bits), -149)
    } else {
        (fraction(bits) + 0x80_0000, e - 150)
    };
    if power >= 0 {
        significand * 1_000_000 * pow2(power as nat)
    } else {
        div_round(significand * 1_000_000, pow2((-power) as nat) as int)
    }
}

/// A single-precision number in millionths, as far as 64 bits reach; zero for no number.
pub open spec fn micros_of(n: Option<u32>) -> i64 {
    match n {
        None => 0,
        Some(bits) => if exponent(bits) == 255 {
            if bits >= 0x8000_0000 {
                i64::MIN
            } else {
                i64::MAX
            }
        } else if bits >= 0x8000_0000 {
            held(-micro_size(bits))
        } else {
            held(micro_size(bits))
        },
    }
}

/// Two to a power.
fn two_to(power: u32) -> (r: i128)
    requires
        power <= 100,
    ensures
        r == pow2(power as nat),
        0 < r <= 0x10_0000_0000_0000_0000_0000_0000,
{
    let mut r: i128 = 1;
    let mut i: u32 = 0;
    proof {
        lemma2_to64();
        assert(pow2(100) == 0x10_0000_0000_0000_0000_0000_0000) by {
            lemma_pow2_adds(64, 36);
            lemma2_to64_rest();
        }
    }
    while i < power
        invariant
            i <= power <= 100,
            r == pow2(i as nat),
            pow2(100) == 0x10_0000_0000_0000_0000_0000_0000,
        decreases power - i,
    {
        proof {
            lemma_pow2_unfold((i + 1) as nat);
            if i + 1 < 100 {
                lemma_pow2_strictly_increases((i + 1) as nat, 100);
            }
        }
        r = r * 2;
        i = i + 1;
    }
    proof {
        lemma_pow2_pos(power as nat);
        if power < 100 {
            lemma_pow2_strictly_increases(power as nat, 100);
        }
    }
    r
}

/// The single-precision number that has these bits in millionths, as far as 64 bits reach; zero
/// for no number.
pub fn micros_from(bits: u32) -> (r: i64)
    ensures
        r == micros_of(number(bits)),
{
    let e: u32 = (bits / 0x80_0000) % 256;
    let f: u32 = bits % 0x80_0000;
    let negative: bool = bits >= 0x8000_0000;
    if e == 255 {
        return if f != 0 {
            0
        } else if negative {
            i64::MIN
        } else {
            i64::MAX
        };
    }
    let n: i128 = if e == 0 {
        f as i128 * 1_000_000
    } else {
        (f as i128 + 0x80_0000) * 1_000_000
    };
    let size: i128 = if e >= 150 {
        let power: u32 = e - 150;
        if power > 63 {
            proof {
                lemma2_to64();
                if power > 64 {
                    lemma_pow2_strictly_increases(64, power as nat);
                }
                large_product(n as int, pow2(power as nat) as int);
            }
            0x1_0000_0000_0000_0000
        } else {
            let p: i128 = two_to(power);
            proof {
                lemma2_to64();
                if power < 64 {
                    lemma_pow2_strictly_increases(power as nat, 64);
                }
                bounded_product(n as int, p as int);
            }
            n * p
        }
    } else {
        let power: u32 = if e == 0 {
            149
        } else {
            150 - e
        };
        if power > 100 {
            proof {
                lemma2_to64();
                lemma_pow2_strictly_increases(64, power as nat);
                nothing_left(n as int, pow2(power as nat) as int);
            }
            0
        } else {
            round_div(n, two_to(power))
        }
    };
    proof {
        if e < 150 {
            let power: int = if e == 0 {
                149
            } else {
                150 - e
            };
            lemma_pow2_pos(power as nat);
            size_is_bounded(n as int, pow2(power as nat) as int);
        }
    }
    if negative {
        hold(-size)
    } else {
        hold(size)
    }
}

proof fn large_product(n: int, p: int)
    requires
        1 <= n,
        0x1_0000_0000_0000_0000 <= p,
    ensures
        n * p >= 0x1_0000_0000_0000_0000,
{
    assert(n * p >= 0x1_0000_0000_0000_0000) by (nonlinear_arith)
        requires
            1 <= n,
            0x1_0000_0000_0000_0000 <= p,
    ;
}

proof fn bounded_product(n: int, p: int)
    requires
        0 <= n <= 0x1000_0000_0000,
        0 < p <= 0x1_0000_0000_0000_0000,
    ensures
        0 <= n * p <= 0x1000_0000_0000 * 0x1_0000_0000_0000_0000,
{
    assert(0 <= n * p <= 0x1000_0000_0000 * 0x1_0000_0000_0000_0000) by (nonlinear_arith)
        requires
            0 <= n <= 0x1000_0000_0000,
            0 < p <= 0x1_0000_0000_0000_0000,
    ;
}

proof fn nothing_left(n: int, p: int)
    requires
        0 <= n <= 0x1000_0000_0000,
        0x1_0000_0000_0000_0000 <= p,
    ensures
        div_round(n, p) == 0,
{
    vstd::arithmetic::div_mod::lemma_basic_div(2 * n + p, 2 * p);
}

proof fn size_is_bounded(n: int, p: int)
    requires
        0 <= n <= 0x1000_0000_0000,
        0 < p,
    ensures
        0 <= div_round(n, p) <= 0x1000_0000_0001,
{
    let q = div_round(n, p);
    div_round_is_nearest(n, p);
    assert(0 <= q <= 0x1000_0000_0001) by (nonlinear_arith)
        requires
            0 <= n <= 0x1000_0000_0000,
            0 < p,
            -p <= 2 * (q * p - n) <= p,
    ;
}

/// Rounding moves a quotient by at most half of its divisor.
pub proof fn div_round_is_nearest(n: int, d: int)
    requires
        0 < d,
    ensures
        -d <= 2 * (div_round(n, d) * d - n) <= d,
{
    let q = div_round(n, d);
    assert(2 * n + d == (2 * d) * q + (2 * n + d) % (2 * d)) by {
        vstd::arithmetic::div_mod::lemma_fundamental_div_mod(2 * n + d, 2 * d);
    }
    assert(0 <= (2 * n + d) % (2 * d) < 2 * d);
    assert((2 * d) * q == 2 * (q * d)) by (nonlinear_arith);
}

/// Limiting a value twice changes nothing the second time, and the result is in range.
pub proof fn clamp_int_in_range(x: int, lo: int, hi: int)
    requires
        lo <= hi,
    ensures
        lo <= clamp_int(x, lo, hi) <= hi,
        clamp_int(clamp_int(x, lo, hi), lo, hi) == clamp_int(x, lo, hi),
{
}

/// Counting on by one counts on by one in 32 bits, and starts over after the largest.
pub proof fn counting_starts_over(m: int)
    requires
        0 <= m,
    ensures
        (m + 1) % 0x1_0000_0000 == (if m % 0x1_0000_0000 == 0xffff_ffff {
            0
        } else {
            m % 0x1_0000_0000 + 1
        }),
{
    let (q, r) = (m / 0x1_0000_0000, m % 0x1_0000_0000);
    vstd::arithmetic::div_mod::lemma_fundamental_div_mod(m, 0x1_0000_0000);
    if r == 0xffff_ffff {
        vstd::arithmetic::div_mod::lemma_fundamental_div_mod_converse(
            m + 1,
            0x1_0000_0000,
            q + 1,
            0,
        );
    } else {
        vstd::arithmetic::div_mod::lemma_fundamental_div_mod_converse(
            m + 1,
            0x1_0000_0000,
            q,
            r + 1,
        );
    }
}

/// A half rounds up: a quotient lies above its rounded value by less than a half, and below it by
/// no more than one.
pub proof fn halves_round_up(n: int, d: int)
    requires
        0 < d,
    ensures
        -d <= 2 * (n - div_round(n, d) * d) < d,
{
    let q = div_round(n, d);
    vstd::arithmetic::div_mod::lemma_fundamental_div_mod(2 * n + d, 2 * d);
    assert((2 * d) * q == 2 * (q * d)) by (nonlinear_arith);
}

/// What 64 bits hold is kept as it is, and what they do not is kept as near as they reach.
pub proof fn what_fits_is_kept(x: int)
    ensures
        i64::MIN <= x <= i64::MAX ==> held(x) == x,
        x > i64::MAX ==> held(x) == i64::MAX,
        x < i64::MIN ==> held(x) == i64::MIN,
{
}

/// A single-precision number is read as it is, to the nearest millionth, where 64 bits hold it. A
/// normal one of exponent `e` and fraction `f` is (2^23 + f) times two to the power of e - 150;
/// one of exponent zero is f times two to the power of -149. With its sign bit set it is as much
/// below zero.
pub proof fn numbers_are_read_to_the_nearest_millionth(e: int, f: int)
    requires
        0 <= e < 255,
        0 <= f < 0x80_0000,
    ensures
        ({
            let bits = (e * 0x80_0000 + f) as u32;
            let minus = (0x8000_0000 + e * 0x80_0000 + f) as u32;
            let m = micros_of(number(bits));
            let significand = if e == 0 {
                f
            } else {
                f + 0x80_0000
            };
            let down = if e == 0 {
                149int
            } else {
                150 - e
            };
            let unit = pow2(
                (if down >= 0 {
                    down
                } else {
                    -down
                }) as nat,
            );
            let full = significand * 1_000_000;
            &&& number(bits) is Some && number(minus) is Some
            &&& down >= 0 && full <= i64::MAX * unit ==> -unit <= 2 * (m * unit - full) <= unit
            &&& down < 0 && full * unit <= i64::MAX ==> m == full * unit
            &&& down < 0 && full * unit > i64::MAX ==> m == i64::MAX
            &&& 0 <= m
            &&& m < i64::MAX ==> micros_of(number(minus)) == -m
        }),
{
    let bits = (e * 0x80_0000 + f) as u32;
    let minus = (0x8000_0000 + e * 0x80_0000 + f) as u32;
    assert(0 <= e * 0x80_0000 + f < 0x7f80_0000);
    assert((e * 0x80_0000 + f) / 0x80_0000 == e && (e * 0x80_0000 + f) % 0x80_0000 == f);
    assert(exponent(bits) == e && fraction(bits) == f);
    assert((0x8000_0000 + e * 0x80_0000 + f) / 0x80_0000 == 256 + e);
    assert((256 + e) % 256 == e);
    assert((0x8000_0000 + e * 0x80_0000 + f) % 0x80_0000 == f);
    assert(exponent(minus) == e && fraction(minus) == f);
    assert(micro_size(minus) == micro_size(bits));
    let significand = if e == 0 {
        f
    } else {
        f + 0x80_0000
    };
    let down = if e == 0 {
        149int
    } else {
        150 - e
    };
    let full = significand * 1_000_000;
    if down > 0 {
        let unit = pow2(down as nat) as int;
        lemma_pow2_pos(down as nat);
        div_round_is_nearest(full, unit);
        size_is_bounded(full, unit);
    } else {
        let unit = pow2((-down) as nat) as int;
        lemma_pow2_pos((-down) as nat);
        assert(full * unit >= 0) by (nonlinear_arith)
            requires
                full >= 0,
                unit >= 0,
        ;
        if down == 0 {
            lemma2_to64();
            assert(full * unit == full) by (nonlinear_arith)
                requires
                    unit == 1,
            ;
        }
    }
}

/// What is no number counts as zero, and an infinity as the end of the range it points to.
pub proof fn what_is_no_number_is_zero(bits: u32)
    requires
        exponent(bits) == 255,
    ensures
        fraction(bits) != 0 ==> micros_of(number(bits)) == 0,
        fraction(bits) == 0 && bits < 0x8000_0000 ==> micros_of(number(bits)) == i64::MAX,
        fraction(bits) == 0 && bits >= 0x8000_0000 ==> micros_of(number(bits)) == i64::MIN,
{
}

} // verus!
