//! Statistics over a chronological series of prices: mean, variance, standard
//! deviation, movement intensity and the extreme values.
use crate::word::{word_max, Uint256};
use vstd::prelude::*;

verus! {

/// `x` capped at the largest 256-bit value.
pub open spec fn clamp(x: nat) -> nat {
    if x <= word_max() {
        x
    } else {
        word_max()
    }
}

/// The distance between two magnitudes.
pub open spec fn dist(a: nat, b: nat) -> nat {
    if a >= b {
        (a - b) as nat
    } else {
        (b - a) as nat
    }
}

/// The exact sum of the prices.
pub open spec fn sum_of(s: Seq<Uint256>) -> nat
    decreases s.len(),
{
    if s.len() == 0 {
        0
    } else {
        sum_of(s.drop_last()) + s.last().value()
    }
}

/// The mean of the prices, taken over their sum capped at the largest word.
pub open spec fn mean_of(s: Seq<Uint256>) -> nat {
    if s.len() == 0 {
        0
    } else {
        clamp(sum_of(s)) / s.len()
    }
}

/// The sum over the prices of their squared distance to `m`, each square capped.
pub open spec fn sq_dev_sum(s: Seq<Uint256>, m: nat) -> nat
    decreases s.len(),
{
    if s.len() == 0 {
        0
    } else {
        sq_dev_sum(s.drop_last(), m) + clamp(dist(s.last().value(), m) * dist(
            s.last().value(),
            m,
        ))
    }
}

/// The variance of the prices around `m`; zero for fewer than two prices.
pub open spec fn variance_of(s: Seq<Uint256>, m: nat) -> nat {
    if s.len() <= 1 {
        0
    } else {
        clamp(sq_dev_sum(s, m)) / s.len()
    }
}

/// `r` is the integer square root of `n`, rounded down.
pub open spec fn is_floor_sqrt(r: nat, n: nat) -> bool {
    r * r <= n < (r + 1) * (r + 1)
}

/// The integer square root of `n`, rounded down.
pub open spec fn floor_sqrt(n: nat) -> nat {
    choose|r: nat| is_floor_sqrt(r, n)
}

/// The standard deviation of the prices around `m`.
pub open spec fn std_dev_of(s: Seq<Uint256>, m: nat) -> nat {
    floor_sqrt(variance_of(s, m))
}

/// The sum of the distances between consecutive prices.
pub open spec fn movement_sum(s: Seq<Uint256>) -> nat
    decreases s.len(),
{
    if s.len() <= 1 {
        0
    } else {
        movement_sum(s.drop_last()) + dist(s.last().value(), s[s.len() - 2].value())
    }
}

/// The mean distance between consecutive prices; zero for fewer than two prices.
pub open spec fn movement_of(s: Seq<Uint256>) -> nat {
    if s.len() <= 1 {
        0
    } else {
        clamp(movement_sum(s)) / (s.len() - 1) as nat
    }
}

/// The smallest price of a non-empty series.
pub open spec fn min_of(s: Seq<Uint256>) -> nat
    decreases s.len(),
{
    if s.len() <= 1 {
        s[0].value()
    } else if s.last().value() < min_of(s.drop_last()) {
        s.last().value()
    } else {
        min_of(s.drop_last())
    }
}

/// The largest price of a non-empty series.
pub open spec fn max_of(s: Seq<Uint256>) -> nat
    decreases s.len(),
{
    if s.len() <= 1 {
        s[0].value()
    } else if s.last().value() > max_of(s.drop_last()) {
        s.last().value()
    } else {
        max_of(s.drop_last())
    }
}

/// Adding to a capped sum caps the whole sum.
pub proof fn lemma_clamp_add(x: nat, y: nat)
    ensures
        clamp(clamp(x) + y) == clamp(x + y),
{
}

/// The distance between two prices.
pub fn abs_diff(a: Uint256, b: Uint256) -> (r: Uint256)
    ensures
        r.value() == dist(a.value(), b.value()),
{
    if b.lt(a) {
        a.saturating_sub(b)
    } else {
        b.saturating_sub(a)
    }
}

/// The mean of the prices, summed with saturation; zero for an empty series.
pub fn compute_mean(prices: &[Uint256]) -> (r: Uint256)
    ensures
        r.value() == mean_of(prices@),
{
    let len = prices.len();
    if len == 0 {
        return Uint256::zero();
    }
    let mut sum = Uint256::zero();
    let mut i: usize = 0;
    while i < len
        invariant
            len == prices@.len(),
            i <= len,
            sum.value() == clamp(sum_of(prices@.take(i as int))),
        decreases len - i,
    {
        proof {
            assert(prices@.take(i + 1).drop_last() == prices@.take(i as int));
            lemma_clamp_add(sum_of(prices@.take(i as int)), prices@[i as int].value());
        }
        sum = sum.saturating_add(prices[i]);
        i = i + 1;
    }
    assert(prices@.take(len as int) == prices@);
    sum.div(Uint256::from_u64(len as u64))
}

/// The variance of the prices around `mean`: the saturated sum of the saturated
/// squared distances, divided by the count. Zero for fewer than two prices.
pub fn compute_variance(prices: &[Uint256], mean: Uint256) -> (r: Uint256)
    ensures
        r.value() == variance_of(prices@, mean.value()),
{
    let len = prices.len();
    if len <= 1 {
        return Uint256::zero();
    }
    let mut sum = Uint256::zero();
    let mut i: usize = 0;
    while i < len
        invariant
            len == prices@.len(),
            i <= len,
            sum.value() == clamp(sq_dev_sum(prices@.take(i as int), mean.value())),
        decreases len - i,
    {
        let diff = abs_diff(prices[i], mean);
        let squared = diff.saturating_mul(diff);
        proof {
            assert(prices@.take(i + 1).drop_last() == prices@.take(i as int));
            lemma_clamp_add(sq_dev_sum(prices@.take(i as int), mean.value()), squared.value());
        }
        sum = sum.saturating_add(squared);
        i = i + 1;
    }
    assert(prices@.take(len as int) == prices@);
    sum.div(Uint256::from_u64(len as u64))
}

/// The integer square root is unique.
pub proof fn lemma_floor_sqrt_unique(r: nat, n: nat)
    requires
        is_floor_sqrt(r, n),
    ensures
        floor_sqrt(n) == r,
{
    let c = floor_sqrt(n);
    assert(is_floor_sqrt(c, n));
    if c < r {
        assert((c + 1) * (c + 1) <= r * r) by (nonlinear_arith)
            requires
                c < r,
        ;
    } else if r < c {
        assert((r + 1) * (r + 1) <= c * c) by (nonlinear_arith)
            requires
                r < c,
        ;
    }
}

/// One Newton step for the square root of `n`, from the estimate `x`.
pub open spec fn newton_step(n: nat, x: nat) -> nat {
    (x + n / x) / 2
}

/// A Newton step from any positive estimate lands at or above the root.
proof fn lemma_newton_step_above_root(n: nat, x: nat)
    requires
        x > 0,
    ensures
        n < (newton_step(n, x) + 1) * (newton_step(n, x) + 1),
{
    let q = n / x;
    let t = newton_step(n, x) + 1;
    vstd::arithmetic::div_mod::lemma_fundamental_div_mod(n as int, x as int);
    vstd::arithmetic::div_mod::lemma_mod_bound(n as int, x as int);
    assert((q + 1) * x == x * q + x) by (nonlinear_arith);
    assert(q + 1 <= 2 * t - x);
    assert((q + 1) * x <= (2 * t - x) * x) by (nonlinear_arith)
        requires
            q + 1 <= 2 * t - x,
            x > 0,
    ;
    assert((2 * t - x) * x <= t * t) by (nonlinear_arith);
}

/// A Newton step from an estimate above the root strictly decreases it.
proof fn lemma_newton_step_decreases(n: nat, x: nat)
    requires
        x > 0,
        x * x > n,
    ensures
        newton_step(n, x) < x,
{
    let q = n / x;
    vstd::arithmetic::div_mod::lemma_fundamental_div_mod(n as int, x as int);
    assert(q < x) by (nonlinear_arith)
        requires
            n == x * q + n % x,
            n % x >= 0,
            x * x > n,
            x > 0,
    ;
}

/// `(x + q) / 2` computed without overflow.
fn half_sum(x: Uint256, q: Uint256) -> (r: Uint256)
    ensures
        r.value() == (x.value() + q.value()) / 2,
{
    let two = Uint256::from_u64(2);
    if q.lt(x) {
        let h = x.saturating_sub(q).div(two);
        proof {
            x.lemma_value_bounded();
        }
        q.saturating_add(h)
    } else {
        let h = q.saturating_sub(x).div(two);
        proof {
            q.lemma_value_bounded();
        }
        x.saturating_add(h)
    }
}

/// The integer square root of `n`, rounded down, found by Newton's method from
/// the estimate `(n + 1) / 2`.
pub fn sqrt(n: Uint256) -> (r: Uint256)
    ensures
        is_floor_sqrt(r.value(), n.value()),
        r.value() == floor_sqrt(n.value()),
{
    let zero = Uint256::zero();
    if !zero.lt(n) {
        proof {
            assert(is_floor_sqrt(0, 0)) by (nonlinear_arith);
            lemma_floor_sqrt_unique(0, 0);
        }
        return zero;
    }
    let mut x = n;
    let mut y = half_sum(x, n.div(x));
    proof {
        assert(n.value() < (n.value() + 1) * (n.value() + 1)) by (nonlinear_arith)
            requires
                n.value() > 0,
        ;
    }
    while y.lt(x)
        invariant
            n.value() > 0,
            x.value() > 0,
            n.value() < (x.value() + 1) * (x.value() + 1),
            y.value() == newton_step(n.value(), x.value()),
        decreases x.value(),
    {
        proof {
            lemma_newton_step_above_root(n.value(), x.value());
            assert(y.value() > 0) by (nonlinear_arith)
                requires
                    n.value() > 0,
                    n.value() < (y.value() + 1) * (y.value() + 1),
            ;
        }
        x = y;
        y = half_sum(x, n.div(x));
    }
    proof {
        if x.value() * x.value() > n.value() {
            lemma_newton_step_decreases(n.value(), x.value());
        }
        lemma_floor_sqrt_unique(x.value(), n.value());
    }
    x
}

/// The standard deviation of the prices around `mean`: the integer square root
/// of their variance. Zero for fewer than two prices.
pub fn compute_std_dev(prices: &[Uint256], mean: Uint256) -> (r: Uint256)
    ensures
        r.value() == std_dev_of(prices@, mean.value()),
        is_floor_sqrt(r.value(), variance_of(prices@, mean.value())),
{
    if prices.len() <= 1 {
        proof {
            assert(is_floor_sqrt(0, 0)) by (nonlinear_arith);
            lemma_floor_sqrt_unique(0, 0);
        }
        return Uint256::zero();
    }
    let variance = compute_variance(prices, mean);
    sqrt(variance)
}

/// The mean distance between consecutive prices, summed with saturation.
/// Zero for fewer than two prices.
pub fn calculate_price_movement_intensity(prices: &[Uint256]) -> (r: Uint256)
    ensures
        r.value() == movement_of(prices@),
{
    let len = prices.len();
    if len <= 1 {
        return Uint256::zero();
    }
    let mut total = Uint256::zero();
    let mut i: usize = 1;
    while i < len
        invariant
            len == prices@.len(),
            1 <= i <= len,
            total.value() == clamp(movement_sum(prices@.take(i as int))),
        decreases len - i,
    {
        let step = abs_diff(prices[i], prices[i - 1]);
        proof {
            let t = prices@.take(i + 1);
            assert(t.drop_last() == prices@.take(i as int));
            assert(t[t.len() - 2] == prices@[i - 1]);
            lemma_clamp_add(movement_sum(prices@.take(i as int)), step.value());
        }
        total = total.saturating_add(step);
        i = i + 1;
    }
    assert(prices@.take(len as int) == prices@);
    total.div(Uint256::from_u64((len - 1) as u64))
}

/// The smallest and the largest price, in one pass. An empty series gives the
/// maximum word and zero.
pub fn price_range(prices: &[Uint256]) -> (r: (Uint256, Uint256))
    ensures
        prices@.len() == 0 ==> r.0.value() == word_max() && r.1.value() == 0,
        prices@.len() > 0 ==> r.0.value() == min_of(prices@) && r.1.value() == max_of(prices@),
{
    let len = prices.len();
    let mut lo = Uint256::max_value();
    let mut hi = Uint256::zero();
    let mut i: usize = 0;
    while i < len
        invariant
            len == prices@.len(),
            i <= len,
            i == 0 ==> lo.value() == word_max() && hi.value() == 0,
            i > 0 ==> lo.value() == min_of(prices@.take(i as int)) && hi.value() == max_of(
                prices@.take(i as int),
            ),
        decreases len - i,
    {
        let p = prices[i];
        proof {
            let t = prices@.take(i + 1);
            assert(t.drop_last() == prices@.take(i as int));
            p.lemma_value_bounded();
        }
        if p.lt(lo) {
            lo = p;
        }
        if hi.lt(p) {
            hi = p;
        }
        i = i + 1;
    }
    assert(prices@.take(len as int) == prices@);
    (lo, hi)
}

/// The sum of a series lies between its length times its smallest price and its
/// length times its largest.
proof fn lemma_sum_between_extremes(s: Seq<Uint256>)
    requires
        s.len() > 0,
    ensures
        s.len() * min_of(s) <= sum_of(s) <= s.len() * max_of(s),
    decreases s.len(),
{
    if s.len() == 1 {
        assert(s.drop_last().len() == 0);
    } else {
        let t = s.drop_last();
        lemma_sum_between_extremes(t);
        let n = t.len() as int;
        assert(n * min_of(s) <= n * min_of(t)) by (nonlinear_arith)
            requires
                min_of(s) <= min_of(t),
                n >= 0,
        ;
        assert(n * max_of(t) <= n * max_of(s)) by (nonlinear_arith)
            requires
                max_of(t) <= max_of(s),
                n >= 0,
        ;
        assert(s.len() * min_of(s) == n * min_of(s) + min_of(s)) by (nonlinear_arith)
            requires
                s.len() == n + 1,
        ;
        assert(s.len() * max_of(s) == n * max_of(s) + max_of(s)) by (nonlinear_arith)
            requires
                s.len() == n + 1,
        ;
    }
}

/// For a non-empty series whose sum does not saturate, the mean lies between the
/// smallest and the largest price.
pub proof fn lemma_mean_within_range(s: Seq<Uint256>)
    requires
        s.len() > 0,
        sum_of(s) <= word_max(),
    ensures
        min_of(s) <= mean_of(s) <= max_of(s),
{
    lemma_sum_between_extremes(s);
    let n = s.len() as int;
    vstd::arithmetic::div_mod::lemma_div_is_ordered(n * min_of(s), sum_of(s) as int, n);
    vstd::arithmetic::div_mod::lemma_div_is_ordered(sum_of(s) as int, n * max_of(s), n);
    vstd::arithmetic::div_mod::lemma_div_multiples_vanish(min_of(s) as int, n);
    vstd::arithmetic::div_mod::lemma_div_multiples_vanish(max_of(s) as int, n);
}

/// A series of at most one price has no variance and no standard deviation,
/// whatever mean it is measured against.
pub proof fn lemma_short_series_no_spread(s: Seq<Uint256>, m: nat)
    requires
        s.len() <= 1,
    ensures
        variance_of(s, m) == 0,
        std_dev_of(s, m) == 0,
{
    assert(is_floor_sqrt(0, 0)) by (nonlinear_arith);
    lemma_floor_sqrt_unique(0, 0);
}

} // verus!
