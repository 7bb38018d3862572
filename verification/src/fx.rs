//! The scalar type of the library: a signed 16.16 fixed-point number held in
//! an `i64`. A raw value `a` stands for the real number `a / 65536`. All of
//! the geometry is exact integer arithmetic over these raw values, so every
//! operation has a precise mathematical contract.

use vstd::prelude::*;

verus! {

/// The raw value of the scalar one.
pub const FX_ONE: i64 = 65536;

/// Raw magnitude admitted by the scalar operations. Values within this range
/// never overflow an `i64` through a product, a quotient, or a four-term sum
/// of products.
pub const FX_LIM: i64 = 0x40_0000_0000;

pub open spec fn fx_ok(a: int) -> bool {
    -FX_LIM <= a <= FX_LIM
}

/// Division truncating toward zero (the rounding of Rust's `/`), for b > 0.
pub open spec fn sdiv(a: int, b: int) -> int {
    if a >= 0 {
        a / b
    } else {
        -((-a) / b)
    }
}

/// The raw value of the fixed-point product: (a * b) / 65536, truncated
/// toward zero.
pub open spec fn fx_mul_spec(a: int, b: int) -> int {
    sdiv(a * b, 65536)
}

/// The raw value of the fixed-point quotient: (a * 65536) / b, truncated
/// toward zero.
pub open spec fn fx_div_spec(a: int, b: int) -> int {
    if b >= 0 {
        sdiv(a * 65536, b)
    } else {
        sdiv(-(a * 65536), -b)
    }
}

/// The magnitude of a raw value, as a mathematical integer.
pub open spec fn fx_abs(a: int) -> int {
    if a >= 0 {
        a
    } else {
        -a
    }
}

/// Fixed-point product of two scalars.
pub fn fx_mul(a: i64, b: i64) -> (r: i64)
    requires
        fx_ok(a as int),
        fx_ok(b as int),
    ensures
        r == fx_mul_spec(a as int, b as int),
{
    let neg: bool = (a < 0) != (b < 0);
    let ua: u128 = if a >= 0 {
        a as u128
    } else {
        (-(a as i128)) as u128
    };
    let ub: u128 = if b >= 0 {
        b as u128
    } else {
        (-(b as i128)) as u128
    };
    proof {
        assert(ua * ub <= FX_LIM * FX_LIM) by (nonlinear_arith)
            requires
                ua == fx_abs(a as int),
                ub == fx_abs(b as int),
                fx_ok(a as int),
                fx_ok(b as int),
        ;
    }
    let q: u128 = (ua * ub) / 65536u128;
    proof {
        assert(q <= 0x1000_0000_0000_0000u128 && (if neg {
            -(q as int)
        } else {
            q as int
        }) == fx_mul_spec(a as int, b as int)) by (nonlinear_arith)
            requires
                ua == fx_abs(a as int),
                ub == fx_abs(b as int),
                ua * ub <= FX_LIM * FX_LIM,
                q == (ua * ub) / 65536,
                neg == ((a < 0) != (b < 0)),
        ;
    }
    if neg {
        -(q as i64)
    } else {
        q as i64
    }
}

/// Fixed-point quotient of two scalars.
pub fn fx_div(a: i64, b: i64) -> (r: i64)
    requires
        fx_ok(a as int),
        b != 0,
    ensures
        r == fx_div_spec(a as int, b as int),
{
    let neg: bool = (a < 0) != (b < 0);
    let ua: u128 = if a >= 0 {
        a as u128
    } else {
        (-(a as i128)) as u128
    };
    let ub: u128 = if b >= 0 {
        b as u128
    } else {
        (-(b as i128)) as u128
    };
    let q: u128 = (ua * 65536u128) / ub;
    proof {
        assert(q <= 0x400_0000_0000_0000u128 && (if neg {
            -(q as int)
        } else {
            q as int
        }) == fx_div_spec(a as int, b as int)) by (nonlinear_arith)
            requires
                ua == fx_abs(a as int),
                ub == fx_abs(b as int),
                fx_ok(a as int),
                b != 0,
                ub >= 1,
                q == (ua * 65536) / (ub as int),
                neg == ((a < 0) != (b < 0)),
        ;
    }
    if neg {
        -(q as i64)
    } else {
        q as i64
    }
}

/// Bound on a fixed-point product from bounds on its factors.
pub proof fn lemma_fx_mul_bound(a: int, b: int, ba: int, bb: int)
    by (nonlinear_arith)
    requires
        -ba <= a <= ba,
        -bb <= b <= bb,
        0 <= ba,
        0 <= bb,
    ensures
        -(ba * bb / 65536) <= fx_mul_spec(a, b) <= ba * bb / 65536,
{
}

/// A quotient of a value by a larger positive value stays within one.
pub proof fn lemma_fx_div_unit(a: int, b: int)
    by (nonlinear_arith)
    requires
        0 < b,
        -b <= a <= b,
    ensures
        -65536 <= fx_div_spec(a, b) <= 65536,
        0 <= a ==> 0 <= fx_div_spec(a, b),
{
}

/// Scaling by a factor within [0, 1] does not grow a value's magnitude.
pub proof fn lemma_fx_mul_unit(t: int, d: int, bd: int)
    by (nonlinear_arith)
    requires
        0 <= t <= 65536,
        -bd <= d <= bd,
    ensures
        -bd <= fx_mul_spec(t, d) <= bd,
{
}

/// A truncated quotient of a nonpositive value by a strictly smaller negative
/// value lies within [0, 1]: the crossing parameter of a segment that truly
/// straddles a plane.
pub proof fn lemma_fx_div_unit_neg(num: int, den: int)
    by (nonlinear_arith)
    requires
        num <= 0,
        den <= num - 1,
    ensures
        0 <= fx_div_spec(num, den) <= 65536,
{
}

/// Multiplying by the scalar one is the identity.
pub proof fn lemma_fx_mul_one(a: int)
    by (nonlinear_arith)
    ensures
        fx_mul_spec(a, 65536) == a,
        fx_mul_spec(65536, a) == a,
{
}

/// Multiplying by zero gives zero.
pub proof fn lemma_fx_mul_zero(a: int)
    by (nonlinear_arith)
    ensures
        fx_mul_spec(a, 0) == 0,
        fx_mul_spec(0, a) == 0,
{
}

/// A product of nonnegative values is nonnegative.
pub proof fn lemma_fx_mul_nonneg(a: int, b: int)
    by (nonlinear_arith)
    requires
        0 <= a,
        0 <= b,
    ensures
        0 <= fx_mul_spec(a, b),
{
}

/// Rounding to the nearest integer, halves away from zero, of a raw value.
pub open spec fn fx_round_spec(a: int) -> int {
    if a >= 0 {
        (a + 32768) / 65536
    } else {
        -(((-a) + 32768) / 65536)
    }
}

/// Round a raw value to the nearest whole number of units.
pub fn fx_round(a: i64) -> (r: i64)
    requires
        -0x4000_0000_0000_0000 <= a <= 0x4000_0000_0000_0000,
    ensures
        r == fx_round_spec(a as int),
{
    if a >= 0 {
        (((a as u64) + 32768) / 65536) as i64
    } else {
        -(((((-a) as u64) + 32768) / 65536) as i64)
    }
}

/// Rounding shrinks a raw value to its unit count, within one.
pub proof fn lemma_fx_round_bound(a: int, ba: int)
    by (nonlinear_arith)
    requires
        0 <= ba,
        -ba <= a <= ba,
    ensures
        -(ba / 65536 + 1) <= fx_round_spec(a) <= ba / 65536 + 1,
{
}

/// The sine approximation stays within two units for every angle.
pub proof fn lemma_sin_fx_bounded(x: int)
    ensures
        -0x20000 <= sin_fx_spec(x) <= 0x20000,
{
    let r = angle_reduce_spec(x);
    assert(0 <= r < 411775);
    lemma_sin_poly_bounded(r);
    lemma_sin_poly_bounded(205887 - r);
    lemma_sin_poly_bounded(r - 205887);
    lemma_sin_poly_bounded(411775 - r);
}

/// The cosine approximation stays within two units for every angle.
pub proof fn lemma_cos_fx_bounded(x: int)
    ensures
        -0x20000 <= cos_fx_spec(x) <= 0x20000,
{
    lemma_sin_fx_bounded(x + 102944);
}

/// The sine polynomial stays within two units on the folded quarter turn.
proof fn lemma_sin_poly_bounded(z: int)
    ensures
        0 <= z <= 102944 ==> -0x20000 <= sin_poly_spec(z) <= 0x20000,
{
    if 0 <= z <= 102944 {
        let z2 = fx_mul_spec(z, z);
        let z3 = fx_mul_spec(z2, z);
        let z5 = fx_mul_spec(z3, z2);
        let z7 = fx_mul_spec(z5, z2);
        lemma_fx_mul_bound(z, z, 102944, 102944);
        lemma_fx_mul_bound(z2, z, 161706, 102944);
        lemma_fx_mul_bound(z3, z2, 254008, 161706);
        lemma_fx_mul_bound(z5, z2, 626749, 161706);
        lemma_fx_div_bound(z3, 393216, 254008);
        lemma_fx_div_bound(z5, 7864320, 626749);
        lemma_fx_div_bound(z7, 330301440, 1546468);
    }
}

/// The integer square root: the unique r with r * r <= n < (r + 1) * (r + 1).
pub open spec fn sqrt_spec(n: int) -> int {
    choose|r: int| 0 <= r && #[trigger] (r * r) <= n && n < (r + 1) * (r + 1)
}

pub proof fn lemma_sqrt_unique(n: int, r: int)
    requires
        0 <= r,
        r * r <= n,
        n < (r + 1) * (r + 1),
    ensures
        sqrt_spec(n) == r,
{
    assert(0 <= r && r * r <= n && n < (r + 1) * (r + 1));
    let s = sqrt_spec(n);
    assert(0 <= s && s * s <= n && n < (s + 1) * (s + 1)) by {
        assert(exists|q: int| 0 <= q && #[trigger] (q * q) <= n && n < (q + 1) * (q + 1)) by {
            assert(0 <= r && r * r <= n && n < (r + 1) * (r + 1));
        }
    }
    assert(s == r) by (nonlinear_arith)
        requires
            0 <= s,
            s * s <= n,
            n < (s + 1) * (s + 1),
            0 <= r,
            r * r <= n,
            n < (r + 1) * (r + 1),
    ;
}

/// The integer square root exists and is characterized for every
/// nonnegative argument.
pub proof fn lemma_sqrt_pos(n: int)
    requires
        0 <= n,
    ensures
        0 <= sqrt_spec(n),
        sqrt_spec(n) * sqrt_spec(n) <= n,
        n < (sqrt_spec(n) + 1) * (sqrt_spec(n) + 1),
    decreases n,
{
    if n == 0 {
        lemma_sqrt_unique(0, 0);
    } else {
        lemma_sqrt_pos(n - 1);
        let r = sqrt_spec(n - 1);
        if (r + 1) * (r + 1) <= n {
            assert(n < (r + 2) * (r + 2)) by (nonlinear_arith)
                requires
                    n - 1 < (r + 1) * (r + 1),
                    0 <= r,
            ;
            lemma_sqrt_unique(n, r + 1);
        } else {
            lemma_sqrt_unique(n, r);
        }
    }
}

/// Integer square root by binary search.
pub fn isqrt_u128(n: u128) -> (r: u128)
    requires
        n < 0x4000_0000_0000_0000_0000u128,
    ensures
        r * r <= n < (r + 1) * (r + 1),
        r == sqrt_spec(n as int),
{
    let mut lo: u128 = 0;
    let mut hi: u128 = 0x80_0000_0000u128 - 1;
    proof {
        assert((0x80_0000_0000u128 - 1 + 1) * (0x80_0000_0000u128 - 1 + 1)
            == 0x4000_0000_0000_0000_0000) by (nonlinear_arith);
    }
    while lo < hi
        invariant
            lo <= hi,
            hi <= 0x80_0000_0000u128 - 1,
            lo * lo <= n,
            n < (hi + 1) * (hi + 1),
        decreases hi - lo,
    {
        let mid: u128 = lo + (hi - lo + 1) / 2;
        proof {
            assert(mid * mid <= 0x4000_0000_0000_0000_0000u128) by (nonlinear_arith)
                requires
                    mid <= 0x80_0000_0000u128 - 1,
            ;
        }
        if mid * mid <= n {
            lo = mid;
        } else {
            hi = mid - 1;
        }
    }
    proof {
        lemma_sqrt_unique(n as int, lo as int);
    }
    lo
}

/// Pi, a half turn, in raw units.
pub const FX_PI: i64 = 205887;

/// A full turn in raw units.
pub const FX_TWO_PI: i64 = 411775;

/// A quarter turn in raw units.
pub const FX_HALF_PI: i64 = 102944;

/// A quotient's magnitude scales with the dividend's bound.
pub proof fn lemma_fx_div_bound(a: int, b: int, ba: int)
    by (nonlinear_arith)
    requires
        0 < b,
        0 <= ba,
        -ba <= a <= ba,
    ensures
        -(ba * 65536 / b) <= fx_div_spec(a, b) <= ba * 65536 / b,
        b >= 65536 ==> -ba <= fx_div_spec(a, b) <= ba,
{
}

/// An angle folded into one turn: the Euclidean remainder modulo a full
/// turn, always in [0, two pi).
pub open spec fn angle_reduce_spec(x: int) -> int {
    if x >= 0 {
        x % 411775
    } else if (-x) % 411775 == 0 {
        0int
    } else {
        411775 - (-x) % 411775
    }
}

/// The sine polynomial on a folded quarter-turn argument: the degree-seven
/// Taylor approximation z - z^3/6 + z^5/120 - z^7/5040, in raw units.
pub open spec fn sin_poly_spec(z: int) -> int {
    let z2 = fx_mul_spec(z, z);
    let z3 = fx_mul_spec(z2, z);
    let z5 = fx_mul_spec(z3, z2);
    let z7 = fx_mul_spec(z5, z2);
    z - fx_div_spec(z3, 393216) + fx_div_spec(z5, 7864320) - fx_div_spec(z7, 330301440)
}

/// The library's sine: the angle folded into one turn, reflected into the
/// first quarter turn, then the sine polynomial with the quadrant's sign.
pub open spec fn sin_fx_spec(x: int) -> int {
    let r = angle_reduce_spec(x);
    if r < 102944 {
        sin_poly_spec(r)
    } else if r < 205887 {
        sin_poly_spec(205887 - r)
    } else if r < 308831 {
        -sin_poly_spec(r - 205887)
    } else {
        -sin_poly_spec(411775 - r)
    }
}

/// The library's cosine: the sine a quarter turn ahead.
pub open spec fn cos_fx_spec(x: int) -> int {
    sin_fx_spec(x + 102944)
}

/// The sine polynomial on a first-quadrant argument.
fn sin_poly(z: i64) -> (r: i64)
    requires
        0 <= z <= 102944,
    ensures
        r == sin_poly_spec(z as int),
        -0x20000 <= r <= 0x20000,
{
    let z2 = fx_mul(z, z);
    proof {
        lemma_fx_mul_bound(z as int, z as int, 102944, 102944);
    }
    let z3 = fx_mul(z2, z);
    proof {
        lemma_fx_mul_bound(z2 as int, z as int, 161706, 102944);
    }
    let z5 = fx_mul(z3, z2);
    proof {
        lemma_fx_mul_bound(z3 as int, z2 as int, 254008, 161706);
    }
    let z7 = fx_mul(z5, z2);
    proof {
        lemma_fx_mul_bound(z5 as int, z2 as int, 626749, 161706);
        lemma_fx_div_bound(z3 as int, 393216, 254008);
        lemma_fx_div_bound(z5 as int, 7864320, 626749);
        lemma_fx_div_bound(z7 as int, 330301440, 1546468);
    }
    z - fx_div(z3, 393216) + fx_div(z5, 7864320) - fx_div(z7, 330301440)
}

/// The sine of an angle in raw radians.
pub fn fx_sin(x: i64) -> (r: i64)
    requires
        -0x200_0000_0000 <= x <= 0x200_0000_0000,
    ensures
        r == sin_fx_spec(x as int),
        -0x20000 <= r <= 0x20000,
{
    let rr: i64 = if x >= 0 {
        ((x as u64) % 411775u64) as i64
    } else {
        let m: u64 = ((-x) as u64) % 411775u64;
        if m == 0 {
            0
        } else {
            (411775u64 - m) as i64
        }
    };
    if rr < 102944 {
        sin_poly(rr)
    } else if rr < 205887 {
        sin_poly(205887 - rr)
    } else if rr < 308831 {
        -sin_poly(rr - 205887)
    } else {
        -sin_poly(411775 - rr)
    }
}

/// The cosine of an angle in raw radians.
pub fn fx_cos(x: i64) -> (r: i64)
    requires
        -0x100_0000_0000 <= x <= 0x100_0000_0000,
    ensures
        r == cos_fx_spec(x as int),
        -0x20000 <= r <= 0x20000,
{
    fx_sin(x + 102944)
}

} // verus!
