//! Snapping ticks to the grid of a tick spacing.
use vstd::prelude::*;

verus! {

/// `a / b` rounded toward zero, as Rust's integer division rounds.
pub open spec fn trunc_div(a: int, b: int) -> int {
    if a >= 0 {
        a / b
    } else {
        -((-a) / b)
    }
}

/// `tick` rounded toward zero to a multiple of `spacing`.
pub open spec fn rounded_to_spacing(tick: int, spacing: int) -> int {
    trunc_div(tick, spacing) * spacing
}

/// Rounds `tick` toward zero to a multiple of `spacing`: `(tick / spacing) * spacing`
/// with truncating division, so negative ticks move up and positive ones down.
pub fn round_to_spacing(tick: i32, spacing: i32) -> (r: i32)
    requires
        spacing > 0,
    ensures
        r == rounded_to_spacing(tick as int, spacing as int),
        r % spacing == 0,
        tick >= 0 ==> 0 <= r <= tick,
        tick < 0 ==> tick <= r <= 0,
        tick - r < spacing,
        r - tick < spacing,
{
    let t = tick as i64;
    let s = spacing as i64;
    let a: i64 = if t >= 0 {
        t
    } else {
        -t
    };
    let q = a / s;
    proof {
        vstd::arithmetic::div_mod::lemma_fundamental_div_mod(a as int, s as int);
        vstd::arithmetic::div_mod::lemma_mod_bound(a as int, s as int);
        vstd::arithmetic::mul::lemma_mul_nonnegative(q as int, s as int);
        assert(q * s == s * q) by (nonlinear_arith);
    }
    let m = q * s;
    let r: i64 = if t >= 0 {
        m
    } else {
        -m
    };
    proof {
        let k = trunc_div(tick as int, spacing as int);
        assert(r == k * s) by (nonlinear_arith)
            requires
                k == (if t >= 0 { q as int } else { -q }),
                r == (if t >= 0 { m as int } else { -m }),
                m == q * s,
        ;
        vstd::arithmetic::div_mod::lemma_mod_multiples_basic(k, s as int);
    }
    r as i32
}

} // verus!
