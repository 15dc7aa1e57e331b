//! Placement of a liquidity range from price statistics, the decision to move
//! a range, and how well a range is centred on the price.
use crate::error::OptimizerError;
use crate::statistics::{compute_mean, compute_std_dev, mean_of, std_dev_of};
use crate::tick::{round_to_spacing, rounded_to_spacing};
use crate::word::{limb_base, word_max, Uint256};
use stylus_sdk::alloy_primitives::Address;
use vstd::prelude::*;

verus! {

/// The spacing of the tick grid that range bounds are snapped to.
pub const TICK_SPACING: i32 = 60;

/// The standard deviation relative to the mean, in percent, rounded down.
pub open spec fn std_dev_percent(s: Seq<Uint256>) -> nat {
    let m = mean_of(s);
    if m > 0 {
        (std_dev_of(s, m) * 100) / m
    } else {
        0
    }
}

/// How many tick spacings a range reaches to each side of the mean tick:
/// wider for more volatile series.
pub open spec fn volatility_multiplier(pct: nat) -> int {
    if pct < 5 {
        20
    } else if pct < 10 {
        30
    } else if pct < 20 {
        50
    } else {
        100
    }
}

/// The range placed around `mean_tick` for a series whose standard deviation is
/// `pct` percent of its mean, both ends rounded toward zero onto the grid.
pub open spec fn bounds_for(mean_tick: int, pct: nat) -> (int, int) {
    let reach = volatility_multiplier(pct) * 60;
    (rounded_to_spacing(mean_tick - reach, 60), rounded_to_spacing(mean_tick + reach, 60))
}

/// The widest reach is 100 spacings; a mean tick this far inside the `i32`
/// range keeps both ends of every range representable.
pub open spec fn tick_fits(mean_tick: int) -> bool {
    i32::MIN + 6000 <= mean_tick <= i32::MAX - 6000
}

pub open spec fn abs(x: int) -> int {
    if x >= 0 {
        x
    } else {
        -x
    }
}

/// Whether the range `[lower, upper]` should be moved, given the current tick and
/// the optimal range: the price is at or past an end, within 10% of the width
/// from an end, or an optimal end lies more than a quarter of the width away.
pub open spec fn rebalance_needed(lower: int, upper: int, tick: int, opt_lower: int, opt_upper: int) -> bool {
    let width = upper - lower;
    ||| tick <= lower
    ||| tick >= upper
    ||| (tick - lower) * 100 / width < 10
    ||| (upper - tick) * 100 / width < 10
    ||| abs(opt_lower - lower) > width / 4
    ||| abs(opt_upper - upper) > width / 4
}

/// How centred `tick` is in `[lower, upper]`, from 100 at the middle down to 0,
/// for a tick inside a range of positive width.
pub open spec fn efficiency_of(lower: int, upper: int, tick: int) -> nat {
    let half = (upper - lower) / 2;
    if half == 0 {
        100
    } else {
        let off = abs(tick - lower - half) * 100 / half;
        if off >= 100 {
            0
        } else {
            (100 - off) as nat
        }
    }
}

/// Recommends and evaluates tick ranges for liquidity positions.
pub struct PositionOptimizer {
    scaling_factor: Uint256,
}

impl PositionOptimizer {
    /// The scale of percentages: 10000 stands for 100%.
    pub closed spec fn spec_scaling_factor(&self) -> nat {
        self.scaling_factor.value()
    }

    pub fn new() -> (r: PositionOptimizer)
        ensures
            r.spec_scaling_factor() == 10000,
    {
        PositionOptimizer { scaling_factor: Uint256::from_u64(10000) }
    }

    /// Sets the scaling factor to 10000.
    pub fn constructor(&mut self)
        ensures
            final(self).spec_scaling_factor() == 10000,
    {
        self.scaling_factor = Uint256::from_u64(10000);
    }

    pub fn scaling_factor(&self) -> (r: Uint256)
        ensures
            r.value() == self.spec_scaling_factor(),
    {
        self.scaling_factor
    }

    /// The recommended range for `recent_prices`: `mean_tick`, the tick of the
    /// series' mean price, plus and minus a reach chosen by how large the
    /// standard deviation is against the mean. Fails on fewer than two prices.
    /// The addresses and the liquidity amount are not read.
    pub fn calculate_optimal_position_bounds(
        &self,
        token0: Address,
        token1: Address,
        recent_prices: Vec<Uint256>,
        liquidity_amount: Uint256,
        mean_tick: i32,
    ) -> (r: Result<(i32, i32), OptimizerError>)
        requires
            tick_fits(mean_tick as int),
        ensures
            recent_prices@.len() < 2 ==> r == Err::<(i32, i32), OptimizerError>(
                OptimizerError::InvalidPriceArray,
            ),
            recent_prices@.len() >= 2 ==> r is Ok && r->Ok_0.0 == bounds_for(
                mean_tick as int,
                std_dev_percent(recent_prices@),
            ).0 && r->Ok_0.1 == bounds_for(mean_tick as int, std_dev_percent(recent_prices@)).1,
            r is Ok ==> r->Ok_0.0 < r->Ok_0.1 && r->Ok_0.0 % 60 == 0 && r->Ok_0.1 % 60 == 0,
    {
        if recent_prices.len() < 2 {
            return Err(OptimizerError::InvalidPriceArray);
        }
        let prices = recent_prices.as_slice();
        let mean = compute_mean(prices);
        let std_dev = compute_std_dev(prices, mean);
        let zero = Uint256::zero();
        let pct = if zero.lt(mean) {
            proof {
                lemma_std_dev_scaled_fits(std_dev.value());
            }
            std_dev.saturating_mul(Uint256::from_u64(100)).div(mean)
        } else {
            zero
        };
        let multiplier: i32 = if pct.lt(Uint256::from_u64(5)) {
            20
        } else if pct.lt(Uint256::from_u64(10)) {
            30
        } else if pct.lt(Uint256::from_u64(20)) {
            50
        } else {
            100
        };
        let reach = multiplier * TICK_SPACING;
        let lower = round_to_spacing(mean_tick - reach, TICK_SPACING);
        let upper = round_to_spacing(mean_tick + reach, TICK_SPACING);
        Ok((lower, upper))
    }

    /// Whether the range `[current_lower_tick, current_upper_tick]` should be
    /// moved, together with the optimal range, which is returned either way.
    /// `mean_tick` is the tick of the series' mean price and `current_tick` the
    /// tick of its last price. Fails on fewer than two prices, then on a range
    /// without positive width.
    pub fn should_rebalance(
        &self,
        token0: Address,
        token1: Address,
        current_lower_tick: i32,
        current_upper_tick: i32,
        recent_prices: Vec<Uint256>,
        mean_tick: i32,
        current_tick: i32,
    ) -> (r: Result<(bool, i32, i32), OptimizerError>)
        requires
            tick_fits(mean_tick as int),
        ensures
            recent_prices@.len() < 2 ==> r == Err::<(bool, i32, i32), OptimizerError>(
                OptimizerError::InvalidPriceArray,
            ),
            recent_prices@.len() >= 2 && current_upper_tick <= current_lower_tick ==> r == Err::<
                (bool, i32, i32),
                OptimizerError,
            >(OptimizerError::InvalidTickSpacing),
            recent_prices@.len() >= 2 && current_upper_tick > current_lower_tick ==> r is Ok && ({
                let b = bounds_for(mean_tick as int, std_dev_percent(recent_prices@));
                &&& r->Ok_0.1 == b.0
                &&& r->Ok_0.2 == b.1
                &&& r->Ok_0.0 == rebalance_needed(
                    current_lower_tick as int,
                    current_upper_tick as int,
                    current_tick as int,
                    b.0,
                    b.1,
                )
            }),
    {
        let (optimal_lower, optimal_upper) = match self.calculate_optimal_position_bounds(
            token0,
            token1,
            recent_prices,
            Uint256::zero(),
            mean_tick,
        ) {
            Ok(b) => b,
            Err(e) => return Err(e),
        };
        let lower = current_lower_tick as i64;
        let upper = current_upper_tick as i64;
        let tick = current_tick as i64;
        let width = upper - lower;
        if width <= 0 {
            return Err(OptimizerError::InvalidTickSpacing);
        }
        let rebalance = if tick <= lower || tick >= upper {
            true
        } else {
            let lower_pct = (tick - lower) * 100 / width;
            let upper_pct = (upper - tick) * 100 / width;
            let dl = optimal_lower as i64 - lower;
            let du = optimal_upper as i64 - upper;
            let dl_abs = if dl >= 0 {
                dl
            } else {
                -dl
            };
            let du_abs = if du >= 0 {
                du
            } else {
                -du
            };
            lower_pct < 10 || upper_pct < 10 || dl_abs > width / 4 || du_abs > width / 4
        };
        Ok((rebalance, optimal_lower, optimal_upper))
    }

    /// How centred `current_tick` is in the range, from 0 to 100: 0 outside the
    /// range, 100 at its middle (or in a range one tick wide), falling linearly
    /// with the distance from the middle and never below 0. Fails on a range
    /// without positive width.
    pub fn calculate_position_efficiency(
        &self,
        current_lower_tick: i32,
        current_upper_tick: i32,
        current_tick: i32,
    ) -> (r: Result<u32, OptimizerError>)
        ensures
            current_upper_tick <= current_lower_tick ==> r == Err::<u32, OptimizerError>(
                OptimizerError::InvalidTickSpacing,
            ),
            current_upper_tick > current_lower_tick && (current_tick < current_lower_tick
                || current_tick > current_upper_tick) ==> r == Ok::<u32, OptimizerError>(0),
            current_lower_tick <= current_tick <= current_upper_tick && current_lower_tick
                < current_upper_tick ==> r is Ok && r->Ok_0 == efficiency_of(
                current_lower_tick as int,
                current_upper_tick as int,
                current_tick as int,
            ),
            r is Ok ==> r->Ok_0 <= 100,
    {
        if current_upper_tick <= current_lower_tick {
            return Err(OptimizerError::InvalidTickSpacing);
        }
        if current_tick < current_lower_tick || current_tick > current_upper_tick {
            return Ok(0);
        }
        let lower = current_lower_tick as i64;
        let range_size = current_upper_tick as i64 - lower;
        let half = range_size / 2;
        if half == 0 {
            return Ok(100);
        }
        let d = current_tick as i64 - lower - half;
        let distance = if d >= 0 {
            d
        } else {
            -d
        };
        let off = distance * 100 / half;
        if off >= 100 {
            Ok(0)
        } else {
            Ok((100 - off) as u32)
        }
    }
}

/// A standard deviation times 100 fits in a word: its square is at most the
/// largest word, so it is below 2^128.
proof fn lemma_std_dev_scaled_fits(std_dev: nat)
    requires
        std_dev * std_dev <= word_max(),
    ensures
        std_dev * 100 <= word_max(),
{
    let b = limb_base() as int;
    let c = b * b;
    assert(word_max() == c * c - 1) by (nonlinear_arith)
        requires
            word_max() == b * b * b * b - 1,
            c == b * b,
    ;
    if std_dev >= c {
        assert(std_dev * std_dev >= c * c) by (nonlinear_arith)
            requires
                std_dev >= c,
                c >= 0,
        ;
    }
    assert(c >= 101) by (nonlinear_arith)
        requires
            b > 101,
            c == b * b,
    ;
    assert(std_dev * 100 <= c * c - 1) by (nonlinear_arith)
        requires
            std_dev < c,
            c >= 101,
    ;
}

} // verus!
