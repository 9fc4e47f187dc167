//! Signed fixed-point arithmetic for the simulation.
//!
//! A world quantity (a coordinate, a velocity, a duration in seconds, a
//! health value) is stored as an `i64` count of ticks, `FX_ONE` ticks to the
//! world unit. Every operation truncates toward zero and clamps its result
//! to `[-FX_LIMIT, FX_LIMIT]`, so all stored quantities stay representable.

use vstd::prelude::*;

verus! {

/// Number of fixed-point ticks in one world unit.
pub const FX_ONE: i64 = 1000;

/// Largest magnitude a stored fixed-point quantity may take (one thousand
/// million world units, far beyond any terrain this engine can hold).
pub const FX_LIMIT: i64 = 1_000_000_000_000;

/// A quantity the simulation is willing to store.
pub open spec fn fx_in_range(v: int) -> bool {
    -FX_LIMIT <= v <= FX_LIMIT
}

/// Clamp a mathematical result back into the representable range.
pub open spec fn fx_clamp(v: int) -> int {
    if v > FX_LIMIT {
        FX_LIMIT as int
    } else if v < -FX_LIMIT {
        -FX_LIMIT as int
    } else {
        v
    }
}

/// Division truncated toward zero, for a positive divisor.
pub open spec fn tdiv(a: int, b: int) -> int
    recommends
        b > 0,
{
    if a >= 0 {
        a / b
    } else {
        -((-a) / b)
    }
}

/// Sign of a quantity: 1, -1 or 0.
pub open spec fn sign_of(v: int) -> int {
    if v > 0 {
        1
    } else if v < 0 {
        -1
    } else {
        0
    }
}

/// Saturating fixed-point sum.
pub fn fx_add(a: i64, b: i64) -> (r: i64)
    requires
        fx_in_range(a as int),
        fx_in_range(b as int),
    ensures
        r as int == fx_clamp(a + b),
        fx_in_range(r as int),
{
    let s: i64 = a + b;
    if s > FX_LIMIT {
        FX_LIMIT
    } else if s < -FX_LIMIT {
        -FX_LIMIT
    } else {
        s
    }
}

/// Saturating fixed-point difference.
pub fn fx_sub(a: i64, b: i64) -> (r: i64)
    requires
        fx_in_range(a as int),
        fx_in_range(b as int),
    ensures
        r as int == fx_clamp(a - b),
        fx_in_range(r as int),
{
    let s: i64 = a - b;
    if s > FX_LIMIT {
        FX_LIMIT
    } else if s < -FX_LIMIT {
        -FX_LIMIT
    } else {
        s
    }
}

proof fn lemma_mul_sign_abs(a: int, b: int)
    by (nonlinear_arith)
    ensures
        a >= 0 && b >= 0 ==> a * b >= 0 && a * b == (if a >= 0 { a } else { -a }) * (if b >= 0 { b } else { -b }),
        a >= 0 && b < 0 ==> a * b <= 0 && -(a * b) == (if a >= 0 { a } else { -a }) * (if b >= 0 { b } else { -b }),
        a < 0 && b >= 0 ==> a * b <= 0 && -(a * b) == (if a >= 0 { a } else { -a }) * (if b >= 0 { b } else { -b }),
        a < 0 && b < 0 ==> a * b >= 0 && a * b == (if a >= 0 { a } else { -a }) * (if b >= 0 { b } else { -b }),
{
}

pub proof fn lemma_mul_upper_bound(x: int, y: int, bx: int, by: int)
    by (nonlinear_arith)
    requires
        0 <= x <= bx,
        0 <= y <= by,
    ensures
        x * y <= bx * by,
{
}

pub proof fn lemma_div_shrinks(a: int, b: int)
    by (nonlinear_arith)
    requires
        0 <= a,
        0 < b,
    ensures
        0 <= a / b <= a,
{
}

/// Magnitude of a fixed-point quantity, as a machine word.
fn fx_abs_u64(a: i64) -> (r: u64)
    requires
        fx_in_range(a as int),
    ensures
        r as int == (if a >= 0 { a as int } else { -(a as int) }),
        r <= FX_LIMIT as u64,
{
    if a < 0 {
        (-a) as u64
    } else {
        a as u64
    }
}

/// Saturating fixed-point product: `(a * b) / FX_ONE`, truncated toward zero.
pub fn fx_mul(a: i64, b: i64) -> (r: i64)
    requires
        fx_in_range(a as int),
        fx_in_range(b as int),
    ensures
        r as int == fx_clamp(tdiv(a * b, FX_ONE as int)),
        fx_in_range(r as int),
{
    let negative: bool = (a < 0) != (b < 0);
    let pa: u64 = fx_abs_u64(a);
    let pb: u64 = fx_abs_u64(b);
    proof {
        lemma_mul_upper_bound(pa as int, pb as int, FX_LIMIT as int, FX_LIMIT as int);
    }
    let q: u128 = (pa as u128) * (pb as u128) / (FX_ONE as u128);
    let m: i64 = if q > (FX_LIMIT as u128) {
        FX_LIMIT
    } else {
        q as i64
    };
    proof {
        lemma_mul_sign_abs(a as int, b as int);
        lemma_div_shrinks(pa as int * pb as int, FX_ONE as int);
    }
    if negative {
        -m
    } else {
        m
    }
}

/// Saturating fixed-point quotient: `(a * FX_ONE) / b`, truncated toward
/// zero, for a positive divisor.
pub fn fx_div(a: i64, b: i64) -> (r: i64)
    requires
        fx_in_range(a as int),
        0 < b <= FX_LIMIT,
    ensures
        r as int == fx_clamp(tdiv(a * FX_ONE, b as int)),
        fx_in_range(r as int),
{
    let negative: bool = a < 0;
    let pa: u64 = fx_abs_u64(a);
    proof {
        lemma_mul_upper_bound(pa as int, FX_ONE as int, FX_LIMIT as int, FX_ONE as int);
    }
    let q: u128 = (pa as u128) * (FX_ONE as u128) / (b as u128);
    let m: i64 = if q > (FX_LIMIT as u128) {
        FX_LIMIT
    } else {
        q as i64
    };
    proof {
        lemma_mul_sign_abs(a as int, FX_ONE as int);
        lemma_div_shrinks(pa as int * FX_ONE as int, b as int);
    }
    if negative {
        -m
    } else {
        m
    }
}

/// Squared Euclidean distance between two fixed-point points; exact, with
/// no clamping (the result is a wide word, not a stored quantity).
pub fn dist_sq(ax: i64, ay: i64, bx: i64, by: i64) -> (r: i128)
    requires
        fx_in_range(ax as int),
        fx_in_range(ay as int),
        fx_in_range(bx as int),
        fx_in_range(by as int),
    ensures
        r as int == (ax - bx) * (ax - bx) + (ay - by) * (ay - by),
{
    let dx: i128 = (ax as i128) - (bx as i128);
    let dy: i128 = (ay as i128) - (by as i128);
    proof {
        lemma_square_bound(dx as int, 2 * FX_LIMIT as int);
        lemma_square_bound(dy as int, 2 * FX_LIMIT as int);
    }
    dx * dx + dy * dy
}

pub proof fn lemma_square_bound(x: int, bx: int)
    by (nonlinear_arith)
    requires
        -bx <= x <= bx,
        0 <= bx,
    ensures
        0 <= x * x <= bx * bx,
{
}

/// Clamp any machine value into the representable range.
pub fn fx_clamp_val(v: i64) -> (r: i64)
    ensures
        r as int == fx_clamp(v as int),
        fx_in_range(r as int),
{
    if v > FX_LIMIT {
        FX_LIMIT
    } else if v < -FX_LIMIT {
        -FX_LIMIT
    } else {
        v
    }
}

/// Number of whole world units in a fixed-point quantity, truncated toward
/// zero: the raster cell coordinate a world coordinate falls in.
pub fn fx_to_units(v: i64) -> (r: i64)
    requires
        fx_in_range(v as int),
    ensures
        r as int == tdiv(v as int, FX_ONE as int),
        -1_000_000_000 <= r <= 1_000_000_000,
{
    proof {
        lemma_div_shrinks(if v >= 0 { v as int } else { -(v as int) }, FX_ONE as int);
        lemma_div_le(
            if v >= 0 { v as int } else { -(v as int) },
            FX_ONE as int,
            FX_LIMIT as int,
        );
    }
    if v < 0 {
        -((((-v) as u64) / (FX_ONE as u64)) as i64)
    } else {
        ((v as u64) / (FX_ONE as u64)) as i64
    }
}

/// The raster cell of a representable coordinate fits comfortably in 32
/// bits.
pub proof fn lemma_cell_bounds(v: int)
    requires
        -FX_LIMIT <= v <= FX_LIMIT,
    ensures
        -1_000_000_000 <= tdiv(v, FX_ONE as int) <= 1_000_000_000,
{
    let a = if v >= 0 { v } else { -v };
    lemma_div_shrinks(a, FX_ONE as int);
    lemma_div_le(a, FX_ONE as int, FX_LIMIT as int);
    assert((FX_LIMIT as int) / (FX_ONE as int) <= 1_000_000_000) by (nonlinear_arith);
}

/// A nonnegative span of at most two range-widths lands, after division by
/// `FX_ONE`, in the cell range a 32-bit coordinate can hold.
pub proof fn lemma_tdiv_in_range(w: int)
    by (nonlinear_arith)
    requires
        0 <= w <= 2 * FX_LIMIT,
    ensures
        0 <= w / (FX_ONE as int) <= 2_000_000_000,
        tdiv(w, FX_ONE as int) == w / (FX_ONE as int),
{
}

/// Shaving a quarter of the width off both sides keeps the corners ordered
/// and in range.
pub proof fn lemma_quarter_bounds(lo: int, hi: int)
    by (nonlinear_arith)
    requires
        lo <= hi,
        fx_in_range(lo),
        fx_in_range(hi),
    ensures
        tdiv(hi - lo, 4) == (hi - lo) / 4,
        lo + (hi - lo) / 4 <= hi - (hi - lo) / 4,
        fx_in_range(lo + (hi - lo) / 4),
        fx_in_range(hi - (hi - lo) / 4),
        0 <= (hi - lo) / 4 <= FX_LIMIT,
{
}

proof fn lemma_div_le(a: int, b: int, c: int)
    by (nonlinear_arith)
    requires
        0 <= a <= c,
        0 < b,
    ensures
        a / b <= c / b,
{
}

} // verus!
