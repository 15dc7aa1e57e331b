//! The volatility score of a price series and the fee it calls for.
use crate::error::OptimizerError;
use crate::statistics::{
    calculate_price_movement_intensity, clamp, compute_mean, compute_variance, max_of, mean_of,
    min_of, movement_of, price_range, variance_of,
};
use crate::word::Uint256;
use stylus_sdk::alloy_primitives::Address;
use vstd::prelude::*;

verus! {

/// The score given to the most volatile series; scores are capped here.
pub const MAX_SCORE: u64 = 10000;

/// Scores up to this one get the base fee.
pub const LOW_SCORE: u64 = 1000;

/// Scores from this one on get the maximum fee.
pub const HIGH_SCORE: u64 = 9000;

/// Weight of the variation coefficient in the score.
pub const VARIATION_WEIGHT: u64 = 6;

/// Weight of the price range in the score; the movement intensity weighs one.
pub const RANGE_WEIGHT: u64 = 3;

/// The sum of the three weights, which the weighted sum is divided by.
pub const WEIGHT_TOTAL: u64 = 10;

/// The spread between the largest and the smallest price; zero for an empty series.
pub open spec fn spread_of(s: Seq<Uint256>) -> nat {
    if s.len() > 0 && max_of(s) > min_of(s) {
        (max_of(s) - min_of(s)) as nat
    } else {
        0
    }
}

/// The variance relative to the mean, in basis points.
pub open spec fn variation_coefficient(s: Seq<Uint256>) -> nat {
    let m = mean_of(s);
    if m > 0 {
        clamp(variance_of(s, m) * 10000) / m
    } else {
        0
    }
}

/// The spread relative to `base`, in basis points.
pub open spec fn range_percent(s: Seq<Uint256>, base: nat) -> nat {
    if base > 0 {
        clamp(spread_of(s) * 10000) / base
    } else {
        0
    }
}

/// The weighted score, six parts variation, three parts range and one part
/// movement, capped at `MAX_SCORE`.
pub open spec fn relative_volatility(s: Seq<Uint256>, base: nat) -> nat {
    let total = clamp(
        clamp(variation_coefficient(s) * 6) + clamp(range_percent(s, base) * 3) + movement_of(s),
    ) / 10;
    if total > 10000 {
        10000
    } else {
        total
    }
}

/// The fee for a score: `base` up to `LOW_SCORE`, `max` from `HIGH_SCORE` on,
/// and in between the linear interpolation from `base` to `max`, rounded down.
/// Where `max < base` the fee between the thresholds stays at `base`.
pub open spec fn fee_for(score: nat, base: nat, max: nat) -> nat {
    if score <= 1000 {
        base
    } else if score >= 9000 {
        max
    } else {
        base + ((score - 1000) as nat * (if max >= base { (max - base) as nat } else { 0 }))
            / 8000
    }
}

/// The volatility score of `prices` against `base_price`, from 0 to `MAX_SCORE`.
pub fn calculate_relative_volatility(prices: &[Uint256], base_price: Uint256) -> (r: Uint256)
    ensures
        r.value() == relative_volatility(prices@, base_price.value()),
        r.value() <= 10000,
{
    let zero = Uint256::zero();
    let bp = Uint256::from_u64(10000);
    let mean = compute_mean(prices);
    let variance = compute_variance(prices, mean);
    let movement = calculate_price_movement_intensity(prices);
    let variation = if zero.lt(mean) {
        variance.saturating_mul(bp).div(mean)
    } else {
        zero
    };
    let (lo, hi) = price_range(prices);
    let spread = if lo.lt(hi) {
        hi.saturating_sub(lo)
    } else {
        zero
    };
    let range = if zero.lt(base_price) {
        spread.saturating_mul(bp).div(base_price)
    } else {
        zero
    };
    let weighted = variation.saturating_mul(Uint256::from_u64(VARIATION_WEIGHT)).saturating_add(
        range.saturating_mul(Uint256::from_u64(RANGE_WEIGHT)),
    ).saturating_add(movement);
    let score = weighted.div(Uint256::from_u64(WEIGHT_TOTAL));
    let cap = Uint256::from_u64(MAX_SCORE);
    if cap.lt(score) {
        cap
    } else {
        score
    }
}

/// Scores price series and turns scores into fees.
pub struct VolatilityCalculator {
    scaling_factor: Uint256,
}

impl VolatilityCalculator {
    /// The scale of percentages in the score: 10000 stands for 100%.
    pub closed spec fn spec_scaling_factor(&self) -> nat {
        self.scaling_factor.value()
    }

    pub fn new() -> (r: VolatilityCalculator)
        ensures
            r.spec_scaling_factor() == 10000,
    {
        VolatilityCalculator { scaling_factor: Uint256::from_u64(10000) }
    }

    /// Sets the scaling factor to 10000.
    pub fn constructor(&mut self)
        ensures
            final(self).spec_scaling_factor() == 10000,
    {
        self.scaling_factor = Uint256::from_u64(10000);
    }

    pub fn scaling_factor(&self) -> (r: Uint256)
        ensures
            r.value() == self.spec_scaling_factor(),
    {
        self.scaling_factor
    }

    /// The volatility score of `recent_prices`, measured against their mean.
    /// Fails on an empty series, then on a zero time window. The token
    /// addresses are not read.
    pub fn calculate_volatility_score(
        &self,
        token0: Address,
        token1: Address,
        recent_prices: Vec<Uint256>,
        time_window: Uint256,
    ) -> (r: Result<Uint256, OptimizerError>)
        ensures
            recent_prices@.len() == 0 ==> r == Err::<Uint256, OptimizerError>(
                OptimizerError::InvalidPriceArray,
            ),
            recent_prices@.len() > 0 && time_window.value() == 0 ==> r == Err::<
                Uint256,
                OptimizerError,
            >(OptimizerError::InvalidTimeWindow),
            recent_prices@.len() > 0 && time_window.value() > 0 ==> r is Ok && r->Ok_0.value()
                == relative_volatility(recent_prices@, mean_of(recent_prices@)),
            r is Ok ==> r->Ok_0.value() <= 10000,
    {
        if recent_prices.len() == 0 {
            return Err(OptimizerError::InvalidPriceArray);
        }
        if !Uint256::zero().lt(time_window) {
            return Err(OptimizerError::InvalidTimeWindow);
        }
        let base_price = compute_mean(recent_prices.as_slice());
        Ok(calculate_relative_volatility(recent_prices.as_slice(), base_price))
    }

    /// The fee for `volatility_score`: `base_fee` up to a score of 1000,
    /// `max_fee` from 9000 on, linear in between.
    pub fn get_recommended_fee(&self, volatility_score: Uint256, base_fee: u32, max_fee: u32) -> (r:
        Result<u32, OptimizerError>)
        ensures
            r == Ok::<u32, OptimizerError>(
                fee_for(volatility_score.value(), base_fee as nat, max_fee as nat) as u32,
            ),
            fee_for(volatility_score.value(), base_fee as nat, max_fee as nat) <= u32::MAX,
    {
        if !Uint256::from_u64(LOW_SCORE).lt(volatility_score) {
            return Ok(base_fee);
        }
        if !volatility_score.lt(Uint256::from_u64(HIGH_SCORE)) {
            return Ok(max_fee);
        }
        let normalized: u64 = volatility_score.as_u32() as u64 - LOW_SCORE;
        let fee_range: u64 = if max_fee >= base_fee {
            (max_fee - base_fee) as u64
        } else {
            0
        };
        proof {
            assert(normalized * fee_range <= 8000 * fee_range) by (nonlinear_arith)
                requires
                    normalized < 8000,
            ;
            vstd::arithmetic::div_mod::lemma_div_is_ordered(
                (normalized * fee_range) as int,
                (8000 * fee_range) as int,
                8000,
            );
            vstd::arithmetic::div_mod::lemma_div_multiples_vanish(fee_range as int, 8000);
        }
        let increase: u64 = normalized * fee_range / (HIGH_SCORE - LOW_SCORE);
        Ok((base_fee as u64 + increase) as u32)
    }
}

/// The fee schedule rises with the score: for `base <= max` a higher score never
/// gets a lower fee, and every fee lies between `base` and `max`.
pub proof fn lemma_fee_monotonic(score1: nat, score2: nat, base: nat, max: nat)
    requires
        score1 <= score2,
        base <= max,
    ensures
        fee_for(score1, base, max) <= fee_for(score2, base, max),
        base <= fee_for(score1, base, max) <= max,
        score1 <= 1000 ==> fee_for(score1, base, max) == base,
        score1 >= 9000 ==> fee_for(score1, base, max) == max,
{
    let range = (max - base) as nat;
    lemma_fee_below_max(score1, base, max);
    lemma_fee_below_max(score2, base, max);
    if 1000 < score1 && score2 < 9000 {
        let n1 = (score1 - 1000) as nat;
        let n2 = (score2 - 1000) as nat;
        assert(n1 * range <= n2 * range) by (nonlinear_arith)
            requires
                n1 <= n2,
        ;
        vstd::arithmetic::div_mod::lemma_div_is_ordered((n1 * range) as int, (n2 * range) as int, 8000);
    }
}

proof fn lemma_fee_below_max(score: nat, base: nat, max: nat)
    requires
        base <= max,
    ensures
        base <= fee_for(score, base, max) <= max,
{
    if 1000 < score < 9000 {
        let range = (max - base) as nat;
        let n = (score - 1000) as nat;
        assert(n * range <= 8000 * range) by (nonlinear_arith)
            requires
                n < 8000,
        ;
        vstd::arithmetic::div_mod::lemma_div_is_ordered((n * range) as int, (8000 * range) as int, 8000);
        vstd::arithmetic::div_mod::lemma_div_multiples_vanish(range as int, 8000);
    }
}

} // verus!
