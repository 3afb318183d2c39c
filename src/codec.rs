//! Sexagesimal coordinates: degree / minute / second rationals and a
//! hemisphere letter, turned into signed decimal degrees.
//!
//! Every decimal quantity of the library is held as a whole number of
//! billionths (so `45.5` degrees is `45_500_000_000`).
use vstd::prelude::*;

verus! {

/// Billionths in one unit.
pub const NANO: u64 = 1_000_000_000;

/// Largest latitude magnitude, in billionths of a degree.
pub const LAT_LIMIT: u64 = 90_000_000_000;

/// Largest longitude magnitude, in billionths of a degree.
pub const LON_LIMIT: u64 = 180_000_000_000;

/// An unsigned rational number as image metadata stores it.
#[derive(Clone, Copy, Debug, PartialEq, Eq)]
pub struct Rational {
    pub num: u32,
    pub denom: u32,
}

/// Which of the two angles a value is.
#[derive(Clone, Copy, Debug, PartialEq, Eq)]
pub enum Axis {
    Latitude,
    Longitude,
}

/// `num / (scale * denom)` in billionths, rounded toward zero.
pub open spec fn part_nanos(r: Rational, scale: int) -> int {
    (r.num as int * NANO as int) / (scale * r.denom as int)
}

/// The common denominator of `d + m/60 + s/3600`.
pub open spec fn common_denominator(d: Rational, m: Rational, s: Rational) -> int {
    3600 * d.denom as int * m.denom as int * s.denom as int
}

/// The numerator of `d + m/60 + s/3600` over `common_denominator`.
pub open spec fn common_numerator(d: Rational, m: Rational, s: Rational) -> int {
    d.num as int * 3600 * m.denom as int * s.denom as int + m.num as int * 60 * d.denom as int
        * s.denom as int + s.num as int * d.denom as int * m.denom as int
}

/// `d + m/60 + s/3600` in billionths: the exact sum, rounded toward zero once.
pub open spec fn magnitude_nanos(d: Rational, m: Rational, s: Rational) -> int {
    (NANO as int * common_numerator(d, m, s)) / common_denominator(d, m, s)
}

pub open spec fn ten_pow(k: nat) -> int
    decreases k,
{
    if k == 0 {
        1
    } else {
        10 * ten_pow((k - 1) as nat)
    }
}

proof fn lemma_ten_pow_bounds(k: nat)
    requires
        k <= 9,
    ensures
        1 <= ten_pow(k) <= NANO as int,
    decreases 9 - k,
{
    if k < 9 {
        lemma_ten_pow_bounds(k + 1);
    } else {
        reveal_with_fuel(ten_pow, 10);
    }
}

/// `NANO * r0 / den`, rounded toward zero, for `r0 < den`: nine steps of
/// long division, so that no intermediate value outgrows `10 * den`.
fn fraction_nanos(r0: u128, den: u128) -> (v: u128)
    requires
        0 < den <= 0x1_0000_0000_0000_0000_0000_0000_0000,
        r0 < den,
    ensures
        v as int == (NANO as int * r0 as int) / (den as int),
        v < NANO,
{
    let mut acc: u128 = 0;
    let mut r: u128 = r0;
    let mut k: u32 = 0;
    while k < 9
        invariant
            k <= 9,
            0 < den <= 0x1_0000_0000_0000_0000_0000_0000_0000,
            r < den,
            r0 < den,
            ten_pow(k as nat) * r0 == acc * den + r,
            acc < ten_pow(k as nat),
        decreases 9 - k,
    {
        let ghost p = ten_pow(k as nat);
        proof {
            lemma_ten_pow_bounds(k as nat);
            lemma_ten_pow_bounds((k + 1) as nat);
        }
        let digit = (r * 10) / den;
        let rest = (r * 10) % den;
        proof {
            assert(ten_pow((k + 1) as nat) == 10 * p);
            vstd::arithmetic::div_mod::lemma_fundamental_div_mod(r * 10, den as int);
            assert(digit < 10) by (nonlinear_arith)
                requires
                    digit == (r * 10) / den as int,
                    r < den,
                    den > 0,
            ;
            assert(acc < ten_pow((k + 1) as nat));
            assert(10 * p * r0 == (10 * acc + digit) * den + rest) by (nonlinear_arith)
                requires
                    p * r0 == acc * den + r,
                    r * 10 == den * digit + rest,
            ;
        }
        assert(acc <= p - 1);
        assert(10 * acc + digit < 10 * p);
        acc = acc * 10 + digit;
        r = rest;
        k = k + 1;
        proof {
            assert(acc * den + r < ten_pow(k as nat) * den) by (nonlinear_arith)
                requires
                    ten_pow(k as nat) * r0 == acc * den + r,
                    r0 < den,
                    ten_pow(k as nat) >= 1,
            ;
            if acc >= ten_pow(k as nat) {
                assert(acc * den >= ten_pow(k as nat) * den) by (nonlinear_arith)
                    requires
                        acc >= ten_pow(k as nat),
                        den > 0,
                ;
            }
        }
    }
    proof {
        reveal_with_fuel(ten_pow, 10);
        assert(ten_pow(9) == NANO as int);
        vstd::arithmetic::div_mod::lemma_fundamental_div_mod_converse_div(
            NANO as int * r0 as int,
            den as int,
            acc as int,
            r as int,
        );
    }
    acc
}

/// The sign that a hemisphere letter gives on an axis, if the letter belongs to it.
pub open spec fn hemisphere_sign(axis: Axis, letter: char) -> Option<int> {
    match axis {
        Axis::Latitude => if letter == 'N' {
            Some(1int)
        } else if letter == 'S' {
            Some(-1int)
        } else {
            None
        },
        Axis::Longitude => if letter == 'E' {
            Some(1int)
        } else if letter == 'W' {
            Some(-1int)
        } else {
            None
        },
    }
}

pub open spec fn axis_limit(axis: Axis) -> int {
    match axis {
        Axis::Latitude => LAT_LIMIT as int,
        Axis::Longitude => LON_LIMIT as int,
    }
}

/// The signed coordinate in billionths of a degree, or `None` where a part is
/// missing, a denominator is zero, the letter does not belong to the axis, or
/// the magnitude lies beyond the axis' range.
pub open spec fn coordinate_spec(parts: Seq<Rational>, letter: char, axis: Axis) -> Option<int> {
    if parts.len() < 3 || parts[0].denom == 0 || parts[1].denom == 0 || parts[2].denom == 0 {
        None
    } else {
        match hemisphere_sign(axis, letter) {
            None => None,
            Some(sign) => {
                let mag = magnitude_nanos(parts[0], parts[1], parts[2]);
                if mag > axis_limit(axis) {
                    None
                } else {
                    Some(sign * mag)
                }
            },
        }
    }
}

/// A single rational in billionths, or `None` for a zero denominator.
pub open spec fn rational_spec(r: Rational) -> Option<int> {
    if r.denom == 0 {
        None
    } else {
        Some(part_nanos(r, 1))
    }
}

fn part_value(r: Rational, scale: u64) -> (v: u64)
    requires
        r.denom != 0,
        1 <= scale <= 3600,
    ensures
        v as int == part_nanos(r, scale as int),
        v <= r.num as int * NANO as int,
{
    assert(r.num as u64 * NANO <= 4_294_967_295u64 * 1_000_000_000u64) by (nonlinear_arith);
    assert(scale * r.denom as u64 <= 3600u64 * 4_294_967_295u64) by (nonlinear_arith)
        requires
            scale <= 3600,
    ;
    let n: u64 = r.num as u64 * NANO;
    let d: u64 = scale * r.denom as u64;
    proof {
        assert(d >= 1) by (nonlinear_arith)
            requires
                d == scale * r.denom as u64,
                scale >= 1,
                r.denom >= 1,
        ;
        assert(n / d <= n) by (nonlinear_arith)
            requires
                d >= 1,
        ;
    }
    n / d
}

/// Value of a single rational in billionths (an altitude, a direction).
pub fn rational_nanos(r: Rational) -> (v: Option<i64>)
    ensures
        match v {
            Some(x) => rational_spec(r) == Some(x as int),
            None => rational_spec(r) is None,
        },
{
    if r.denom == 0 {
        None
    } else {
        let x = part_value(r, 1);
        Some(x as i64)
    }
}

/// Signed decimal degrees, in billionths, from a degree / minute / second
/// triple and a hemisphere letter (`N`/`S` for latitude, `E`/`W` for longitude).
pub fn coordinate_from_parts(parts: &Vec<Rational>, letter: char, axis: Axis) -> (v: Option<i64>)
    ensures
        match v {
            Some(x) => coordinate_spec(parts@, letter, axis) == Some(x as int),
            None => coordinate_spec(parts@, letter, axis) is None,
        },
{
    if parts.len() < 3 || parts[0].denom == 0 || parts[1].denom == 0 || parts[2].denom == 0 {
        return None;
    }
    let negative = match axis {
        Axis::Latitude => if letter == 'N' {
            false
        } else if letter == 'S' {
            true
        } else {
            return None;
        },
        Axis::Longitude => if letter == 'E' {
            false
        } else if letter == 'W' {
            true
        } else {
            return None;
        },
    };
    let limit = match axis {
        Axis::Latitude => LAT_LIMIT,
        Axis::Longitude => LON_LIMIT,
    };
    let dn = parts[0].num as u128;
    let dd = parts[0].denom as u128;
    let mn = parts[1].num as u128;
    let md = parts[1].denom as u128;
    let sn = parts[2].num as u128;
    let sd = parts[2].denom as u128;
    let big: u128 = 0xffff_ffff;
    assert(dn * 3600 * md <= big * 3600 * big) by (nonlinear_arith)
        requires dn <= big, md <= big;
    assert(dn * 3600 * md * sd <= big * 3600 * big * big) by (nonlinear_arith)
        requires dn <= big, md <= big, sd <= big;
    assert(mn * 60 * dd <= big * 60 * big) by (nonlinear_arith)
        requires mn <= big, dd <= big;
    assert(mn * 60 * dd * sd <= big * 60 * big * big) by (nonlinear_arith)
        requires mn <= big, dd <= big, sd <= big;
    assert(sn * dd <= big * big) by (nonlinear_arith)
        requires sn <= big, dd <= big;
    assert(3600 * dd * md <= 3600 * big * big) by (nonlinear_arith)
        requires dd <= big, md <= big;
    assert(sn * dd * md <= big * big * big) by (nonlinear_arith)
        requires sn <= big, dd <= big, md <= big;
    assert(3600 * dd * md * sd <= 3600 * big * big * big) by (nonlinear_arith)
        requires dd <= big, md <= big, sd <= big;
    assert(3600 * dd * md * sd >= 1) by (nonlinear_arith)
        requires dd >= 1, md >= 1, sd >= 1;
    let x: u128 = dn * 3600 * md * sd + mn * 60 * dd * sd + sn * dd * md;
    let den: u128 = 3600 * dd * md * sd;
    assert(x as int == common_numerator(parts[0], parts[1], parts[2]));
    assert(den as int == common_denominator(parts[0], parts[1], parts[2]));
    let q = x / den;
    let r = x % den;
    if q > 180 {
        proof {
            vstd::arithmetic::div_mod::lemma_fundamental_div_mod(x as int, den as int);
            assert(NANO as int * x == (NANO as int * q) * den + NANO as int * r) by (nonlinear_arith)
                requires x == den * q + r;
            assert(NANO as int * q * den <= NANO as int * x) by (nonlinear_arith)
                requires NANO as int * x == (NANO as int * q) * den + NANO as int * r, r >= 0;
            vstd::arithmetic::div_mod::lemma_div_is_ordered(
                NANO as int * q * den,
                NANO as int * x,
                den as int,
            );
            vstd::arithmetic::div_mod::lemma_div_by_multiple(NANO as int * q, den as int);
        }
        return None;
    }
    let frac = fraction_nanos(r, den);
    let mag_wide: u128 = q * 1_000_000_000 + frac;
    proof {
        vstd::arithmetic::div_mod::lemma_fundamental_div_mod(x as int, den as int);
        vstd::arithmetic::div_mod::lemma_fundamental_div_mod(NANO as int * r, den as int);
        let rest = (NANO as int * r) % (den as int);
        assert(NANO as int * x == (NANO as int * q + frac) * den + rest) by (nonlinear_arith)
            requires
                x == den * q + r,
                NANO as int * r == den * frac + rest,
        ;
        vstd::arithmetic::div_mod::lemma_fundamental_div_mod_converse_div(
            NANO as int * x,
            den as int,
            NANO as int * q + frac,
            rest,
        );
    }
    if mag_wide > limit as u128 {
        return None;
    }
    let mag = mag_wide as u64;
    if negative {
        Some(-(mag as i64))
    } else {
        Some(mag as i64)
    }
}

/// The hemisphere letter decides the sign alone: the same triple read with
/// the two letters of an axis gives values that are each other's negation,
/// the northern / eastern one never below zero.
pub proof fn lemma_hemisphere_sign(parts: Seq<Rational>, axis: Axis)
    ensures
        ({
            let (pos, neg) = match axis {
                Axis::Latitude => ('N', 'S'),
                Axis::Longitude => ('E', 'W'),
            };
            &&& coordinate_spec(parts, pos, axis) is Some <==> coordinate_spec(parts, neg, axis) is Some
            &&& coordinate_spec(parts, pos, axis) is Some ==> {
                &&& coordinate_spec(parts, pos, axis).unwrap() >= 0
                &&& coordinate_spec(parts, neg, axis).unwrap() == -coordinate_spec(parts, pos, axis).unwrap()
            }
        }),
{
    if parts.len() >= 3 && parts[0].denom != 0 && parts[1].denom != 0 && parts[2].denom != 0 {
        let (d, m, s) = (parts[0], parts[1], parts[2]);
        let n = common_numerator(d, m, s);
        let den = common_denominator(d, m, s);
        assert(n >= 0 && den >= 1) by (nonlinear_arith)
            requires
                n == common_numerator(d, m, s),
                den == common_denominator(d, m, s),
                d.denom >= 1,
                m.denom >= 1,
                s.denom >= 1,
        ;
        assert(NANO as int * n >= 0) by (nonlinear_arith)
            requires n >= 0;
        vstd::arithmetic::div_mod::lemma_div_pos_is_pos(NANO as int * n, den);
    }
}

} // verus!
