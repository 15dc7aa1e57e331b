use liquidity_optimizer::error::OptimizerError;
use liquidity_optimizer::position::PositionOptimizer;
use liquidity_optimizer::statistics::{
    abs_diff, calculate_price_movement_intensity, compute_mean, compute_std_dev,
    compute_variance, price_range, sqrt,
};
use liquidity_optimizer::tick::round_to_spacing;
use liquidity_optimizer::volatility::{calculate_relative_volatility, VolatilityCalculator};
use liquidity_optimizer::word::Uint256;
use stylus_sdk::alloy_primitives::Address;

fn w(v: u64) -> Uint256 {
    Uint256::from_u64(v)
}

fn series(vs: &[u64]) -> Vec<Uint256> {
    vs.iter().map(|v| w(*v)).collect()
}

#[test]
fn flat_series_has_zero_score_and_base_fee() {
    let prices = series(&[100, 100, 100, 100]);
    let mean = compute_mean(&prices);
    assert_eq!(mean, w(100));
    assert_eq!(compute_variance(&prices, mean), w(0));
    assert_eq!(calculate_price_movement_intensity(&prices), w(0));
    assert_eq!(calculate_relative_volatility(&prices, w(100)), w(0));
    let calc = VolatilityCalculator::new();
    let score = calc
        .calculate_volatility_score(Address::ZERO, Address::ZERO, prices, w(3600))
        .unwrap();
    assert_eq!(score, w(0));
    assert_eq!(calc.get_recommended_fee(score, 10, 100), Ok(10));
}

#[test]
fn single_price_cannot_place_a_range() {
    let opt = PositionOptimizer::new();
    let r = opt.calculate_optimal_position_bounds(Address::ZERO, Address::ZERO, series(&[100]), w(0), 46054);
    assert_eq!(r, Err(OptimizerError::InvalidPriceArray));
    let r = opt.calculate_optimal_position_bounds(Address::ZERO, Address::ZERO, series(&[]), w(0), 0);
    assert_eq!(r, Err(OptimizerError::InvalidPriceArray));
}

#[test]
fn efficiency_at_centre_and_edge() {
    let opt = PositionOptimizer::new();
    assert_eq!(opt.calculate_position_efficiency(0, 100, 50), Ok(100));
    assert_eq!(opt.calculate_position_efficiency(0, 100, 0), Ok(0));
    assert_eq!(opt.calculate_position_efficiency(0, 100, 75), Ok(50));
    assert_eq!(opt.calculate_position_efficiency(0, 100, 101), Ok(0));
    assert_eq!(opt.calculate_position_efficiency(0, 100, -1), Ok(0));
    assert_eq!(opt.calculate_position_efficiency(0, 1, 1), Ok(100));
    assert_eq!(opt.calculate_position_efficiency(0, 3, 3), Ok(0));
}

#[test]
fn efficiency_rejects_empty_range() {
    let opt = PositionOptimizer::new();
    assert_eq!(opt.calculate_position_efficiency(10, 10, 10), Err(OptimizerError::InvalidTickSpacing));
    assert_eq!(opt.calculate_position_efficiency(20, 10, 15), Err(OptimizerError::InvalidTickSpacing));
}

#[test]
fn tick_at_upper_bound_triggers_rebalance() {
    let opt = PositionOptimizer::new();
    let prices = series(&[100, 101, 99, 100]);
    let r = opt.should_rebalance(Address::ZERO, Address::ZERO, 44820, 47220, prices, 46054, 47220);
    assert_eq!(r, Ok((true, 44820, 47220)));
}

#[test]
fn centred_tick_in_optimal_range_keeps_position() {
    let opt = PositionOptimizer::new();
    let prices = series(&[100, 101, 99, 100]);
    let r = opt.should_rebalance(Address::ZERO, Address::ZERO, 44820, 47220, prices, 46054, 46020);
    assert_eq!(r, Ok((false, 44820, 47220)));
}

#[test]
fn near_edge_or_far_optimum_triggers_rebalance() {
    let opt = PositionOptimizer::new();
    let prices = series(&[100, 101, 99, 100]);
    let near_lower = opt.should_rebalance(Address::ZERO, Address::ZERO, 44820, 47220, prices.clone(), 46054, 44900);
    assert_eq!(near_lower, Ok((true, 44820, 47220)));
    let shifted = opt.should_rebalance(Address::ZERO, Address::ZERO, 46020, 48420, prices, 46054, 47220);
    assert_eq!(shifted, Ok((true, 44820, 47220)));
}

#[test]
fn rebalance_errors() {
    let opt = PositionOptimizer::new();
    let r = opt.should_rebalance(Address::ZERO, Address::ZERO, 0, 600, series(&[100]), 46054, 0);
    assert_eq!(r, Err(OptimizerError::InvalidPriceArray));
    let r = opt.should_rebalance(Address::ZERO, Address::ZERO, 600, 600, series(&[100, 100]), 46054, 0);
    assert_eq!(r, Err(OptimizerError::InvalidTickSpacing));
}

#[test]
fn optimal_bounds_low_volatility() {
    let opt = PositionOptimizer::new();
    let r = opt.calculate_optimal_position_bounds(Address::ZERO, Address::ZERO, series(&[100, 101, 99, 100]), w(5), 46054);
    assert_eq!(r, Ok((44820, 47220)));
    let (lo, hi) = r.unwrap();
    assert!(lo < hi && lo % 60 == 0 && hi % 60 == 0);
}

#[test]
fn optimal_bounds_widen_with_volatility() {
    let opt = PositionOptimizer::new();
    // mean 100, standard deviation 7: multiplier 30, reach 1800
    let r = opt.calculate_optimal_position_bounds(Address::ZERO, Address::ZERO, series(&[93, 107]), w(0), 0);
    assert_eq!(r, Ok((-1800, 1800)));
    // mean 100, standard deviation 15: multiplier 50
    let r = opt.calculate_optimal_position_bounds(Address::ZERO, Address::ZERO, series(&[85, 115]), w(0), 0);
    assert_eq!(r, Ok((-3000, 3000)));
    // mean 100, standard deviation 50: multiplier 100
    let r = opt.calculate_optimal_position_bounds(Address::ZERO, Address::ZERO, series(&[50, 150]), w(0), -70);
    assert_eq!(r, Ok((-6060, 5880)));
}

#[test]
fn mean_lies_between_extremes() {
    let prices = series(&[90, 100, 110, 95]);
    let mean = compute_mean(&prices);
    assert_eq!(mean, w(98));
    let (lo, hi) = price_range(&prices);
    assert_eq!((lo, hi), (w(90), w(110)));
    assert_eq!(compute_mean(&[]), w(0));
}

#[test]
fn mean_saturates_on_overflowing_sum() {
    let m = Uint256::max_value();
    let mean = compute_mean(&[m, m]);
    assert_eq!([mean.l0, mean.l1, mean.l2, mean.l3], [u64::MAX, u64::MAX, u64::MAX, u64::MAX >> 1]);
}

#[test]
fn short_series_have_no_spread() {
    assert_eq!(compute_variance(&[w(7)], w(3)), w(0));
    assert_eq!(compute_std_dev(&[w(7)], w(3)), w(0));
    assert_eq!(compute_variance(&[], w(3)), w(0));
    assert_eq!(calculate_price_movement_intensity(&[w(7)]), w(0));
}

#[test]
fn variance_and_std_dev_exact() {
    let prices = series(&[2, 4, 4, 4, 5, 5, 7, 9]);
    let mean = compute_mean(&prices);
    assert_eq!(mean, w(5));
    assert_eq!(compute_variance(&prices, mean), w(4));
    assert_eq!(compute_std_dev(&prices, mean), w(2));
}

#[test]
fn integer_square_roots() {
    let cases: [(u64, u64); 10] = [(0, 0), (1, 1), (2, 1), (3, 1), (4, 2), (15, 3), (16, 4), (17, 4), (99, 9), (1_000_000_000_000_000_000, 1_000_000_000)];
    for (n, r) in cases {
        assert_eq!(sqrt(w(n)), w(r));
    }
    let root = sqrt(Uint256::max_value());
    assert_eq!([root.l0, root.l1, root.l2, root.l3], [u64::MAX, u64::MAX, 0, 0]);
}

#[test]
fn movement_intensity_and_range() {
    assert_eq!(calculate_price_movement_intensity(&series(&[1, 4, 2])), w(2));
    assert_eq!(abs_diff(w(3), w(10)), w(7));
    assert_eq!(abs_diff(w(10), w(3)), w(7));
    assert_eq!(price_range(&series(&[5, 3, 9])), (w(3), w(9)));
    assert_eq!(price_range(&[]), (Uint256::max_value(), w(0)));
}

#[test]
fn volatility_score_exact_and_capped() {
    let calc = VolatilityCalculator::new();
    let r = calc.calculate_volatility_score(Address::ZERO, Address::ZERO, series(&[1000, 1010]), w(60));
    assert_eq!(r, Ok(w(179)));
    let r = calc.calculate_volatility_score(Address::ZERO, Address::ZERO, series(&[100, 200]), w(60));
    assert_eq!(r, Ok(w(10000)));
}

#[test]
fn volatility_score_errors() {
    let calc = VolatilityCalculator::new();
    let r = calc.calculate_volatility_score(Address::ZERO, Address::ZERO, vec![], w(60));
    assert_eq!(r, Err(OptimizerError::InvalidPriceArray));
    let r = calc.calculate_volatility_score(Address::ZERO, Address::ZERO, vec![], w(0));
    assert_eq!(r, Err(OptimizerError::InvalidPriceArray));
    let r = calc.calculate_volatility_score(Address::ZERO, Address::ZERO, series(&[5]), w(0));
    assert_eq!(r, Err(OptimizerError::InvalidTimeWindow));
}

#[test]
fn fee_schedule() {
    let calc = VolatilityCalculator::new();
    assert_eq!(calc.get_recommended_fee(w(0), 10, 100), Ok(10));
    assert_eq!(calc.get_recommended_fee(w(1000), 10, 100), Ok(10));
    assert_eq!(calc.get_recommended_fee(w(1001), 10, 100), Ok(10));
    assert_eq!(calc.get_recommended_fee(w(5000), 10, 100), Ok(55));
    assert_eq!(calc.get_recommended_fee(w(8999), 10, 100), Ok(99));
    assert_eq!(calc.get_recommended_fee(w(9000), 10, 100), Ok(100));
    assert_eq!(calc.get_recommended_fee(w(10000), 10, 100), Ok(100));
    assert_eq!(calc.get_recommended_fee(Uint256::max_value(), 10, 100), Ok(100));
    assert_eq!(calc.get_recommended_fee(w(5000), 100, 10), Ok(100));
    let mut last = 0;
    for s in (0..=10000u64).step_by(250) {
        let fee = calc.get_recommended_fee(w(s), 3000, 10000).unwrap();
        assert!(fee >= last && (3000..=10000).contains(&fee));
        last = fee;
    }
}

#[test]
fn rounding_to_spacing() {
    assert_eq!(round_to_spacing(125, 60), 120);
    assert_eq!(round_to_spacing(-125, 60), -120);
    assert_eq!(round_to_spacing(59, 60), 0);
    assert_eq!(round_to_spacing(-59, 60), 0);
    assert_eq!(round_to_spacing(120, 60), 120);
    assert_eq!(round_to_spacing(i32::MIN, 60), -2147483640);
}

#[test]
fn constructors_set_scaling_factor() {
    let mut opt = PositionOptimizer::new();
    opt.constructor();
    assert_eq!(opt.scaling_factor(), w(10000));
    let mut calc = VolatilityCalculator::new();
    calc.constructor();
    assert_eq!(calc.scaling_factor(), w(10000));
}
