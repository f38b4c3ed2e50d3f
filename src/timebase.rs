//! Time bases and timestamp arithmetic.
//!
//! A timestamp counts ticks of its stream's time base, a rational number of
//! seconds. Arithmetic here is exact: products are taken in 128 bits and
//! compared or divided once, so no drift accumulates.

use vstd::prelude::*;

verus! {

/// A rational number of seconds per tick, `num / den`.
#[derive(Clone, Copy, Debug, PartialEq, Eq, Structural)]
pub struct Rational {
    pub num: i32,
    pub den: i32,
}

impl Rational {
    pub fn new(num: i32, den: i32) -> (r: Rational)
        ensures
            r.num == num,
            r.den == den,
    {
        Rational { num, den }
    }
}

/// `n / c` rounded to the nearest integer, halves away from zero (`c > 0`).
pub open spec fn round_div(n: int, c: int) -> int
    recommends
        c > 0,
{
    if n >= 0 {
        (n + c / 2) / c
    } else {
        -((-n + c / 2) / c)
    }
}

/// `ts` ticks of `src` expressed in ticks of `dst`, rounded to the nearest
/// tick with halves away from zero; `None` when either time base is not
/// positive or the result does not fit in 64 bits.
pub open spec fn rescale_spec(ts: int, src: Rational, dst: Rational) -> Option<int> {
    let b = src.num * dst.den;
    let c = dst.num * src.den;
    if c <= 0 || b < 0 {
        None
    } else {
        let q = round_div(ts * b, c);
        if i64::MIN <= q <= i64::MAX {
            Some(q)
        } else {
            None
        }
    }
}

/// Whether `delta` ticks of `tb` last at least `seconds` seconds. A time base
/// with a zero denominator never reaches it.
pub open spec fn reaches_seconds(delta: int, tb: Rational, seconds: int) -> bool {
    if tb.den > 0 {
        delta * tb.num >= seconds * tb.den
    } else if tb.den < 0 {
        delta * tb.num <= seconds * tb.den
    } else {
        false
    }
}

/// Rescales a timestamp from `src` ticks to `dst` ticks; an absent timestamp
/// stays absent.
pub fn rescale_ts(ts: Option<i64>, src: Rational, dst: Rational) -> (r: Option<i64>)
    ensures
        ts is None ==> r is None,
        ts matches Some(a) ==> match rescale_spec(a as int, src, dst) {
            Some(q) => r == Some(q as i64),
            None => r is None,
        },
{
    let a = match ts {
        None => {
            return None;
        },
        Some(a) => a,
    };
    let b: i128 = wide_product(src.num, dst.den);
    let c: i128 = wide_product(dst.num, src.den);
    if c <= 0 || b < 0 {
        return None;
    }
    let wide: i128 = a as i128;
    let mag: i128 = if wide >= 0 {
        assert(0 <= wide * b <= 0x8000_0000_0000_0000 * 0x4000_0000_0000_0000) by (nonlinear_arith)
            requires
                0 <= wide <= 0x8000_0000_0000_0000,
                0 <= b <= 0x4000_0000_0000_0000,
        ;
        wide * b
    } else {
        assert(0 <= (-wide) * b <= 0x8000_0000_0000_0000 * 0x4000_0000_0000_0000
            && (-wide) * b == -(wide * b)) by (nonlinear_arith)
            requires
                0 < -wide <= 0x8000_0000_0000_0000,
                0 <= b <= 0x4000_0000_0000_0000,
        ;
        (-wide) * b
    };
    let q: i128 = (mag + c / 2) / c;
    assert(q <= mag + c / 2) by (nonlinear_arith)
        requires
            q == (mag + c / 2) as int / c as int,
            c >= 1,
            mag >= 0,
    ;
    proof {
        let n = a as int * b as int;
        if wide >= 0 {
            assert(round_div(n, c as int) == q);
        } else if b == 0 {
            assert(n == 0) by (nonlinear_arith)
                requires
                    n == a as int * b as int,
                    b == 0,
            ;
            assert(mag == 0) by (nonlinear_arith)
                requires
                    mag == (-wide) * b,
                    b == 0,
            ;
            assert(q == 0) by (nonlinear_arith)
                requires
                    q == (mag + c / 2) as int / c as int,
                    mag == 0,
                    c >= 1,
            ;
            assert(round_div(n, c as int) == q);
        } else {
            assert(n < 0) by (nonlinear_arith)
                requires
                    n == a as int * b as int,
                    a < 0,
                    b > 0,
            ;
            assert(mag == -n);
            assert(round_div(n, c as int) == -q);
        }
    }
    if wide >= 0 {
        if q > i64::MAX as i128 {
            return None;
        }
        Some(q as i64)
    } else {
        if q > 0x8000_0000_0000_0000i128 {
            return None;
        }
        Some((-q) as i64)
    }
}

/// The exact product of two 32-bit integers.
fn wide_product(x: i32, y: i32) -> (r: i128)
    ensures
        r == x * y,
        -0x4000_0000_0000_0000 <= r <= 0x4000_0000_0000_0000,
{
    let wx: i128 = x as i128;
    let wy: i128 = y as i128;
    assert(-0x4000_0000_0000_0000 <= wx * wy <= 0x4000_0000_0000_0000) by (nonlinear_arith)
        requires
            -0x8000_0000 <= wx < 0x8000_0000,
            -0x8000_0000 <= wy < 0x8000_0000,
    ;
    wx * wy
}

/// Whether a video packet at `current_pts` lies at least `roll_seconds` after
/// the segment's first packet at `start_pts`, both in ticks of `time_base`.
/// The comparison is made on exact rationals.
pub fn should_roll(start_pts: i64, current_pts: i64, time_base: Rational, roll_seconds: u32) -> (r:
    bool)
    ensures
        r == reaches_seconds(current_pts - start_pts, time_base, roll_seconds as int),
{
    let delta: i128 = current_pts as i128 - start_pts as i128;
    let num: i128 = time_base.num as i128;
    let den: i128 = time_base.den as i128;
    let secs: i128 = roll_seconds as i128;
    assert(-0x1_0000_0000_0000_0000 <= delta <= 0x1_0000_0000_0000_0000);
    assert(-0x1_0000_0000_0000_0000 * 0x8000_0000 <= delta * num <= 0x1_0000_0000_0000_0000
        * 0x8000_0000) by (nonlinear_arith)
        requires
            -0x1_0000_0000_0000_0000 <= delta <= 0x1_0000_0000_0000_0000,
            -0x8000_0000 <= num <= 0x8000_0000,
    ;
    assert(-0x1_0000_0000 * 0x8000_0000 <= secs * den <= 0x1_0000_0000 * 0x8000_0000)
        by (nonlinear_arith)
        requires
            0 <= secs <= 0x1_0000_0000,
            -0x8000_0000 <= den <= 0x8000_0000,
    ;
    if den > 0 {
        delta * num >= secs * den
    } else if den < 0 {
        delta * num <= secs * den
    } else {
        false
    }
}

} // verus!
