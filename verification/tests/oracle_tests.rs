use swap_pool::oracle;

#[test]
fn check_liquidity_rejects_zero_deltas() {
    assert_eq!(oracle::check_liquidity(0, 4000, 1000, 4000), Some(false));
    assert_eq!(oracle::check_liquidity(1000, 0, 1000, 4000), Some(false));
}

#[test]
fn check_liquidity_accepts_fresh_pool() {
    assert_eq!(oracle::check_liquidity(1000, 4000, 0, 0), Some(true));
    assert_eq!(oracle::check_liquidity(1000, 4000, 0, 4000), Some(true));
}

#[test]
fn check_liquidity_compares_ratios() {
    assert_eq!(oracle::check_liquidity(1000, 4000, 1_000_000, 4_000_000), Some(true));
    assert_eq!(oracle::check_liquidity(1000, 3999, 1_000_000, 4_000_000), Some(false));
}

#[test]
fn deposit_on_fresh_pool_mints_geometric_mean() {
    // isqrt(1000 * 4000) = 2000
    assert_eq!(oracle::deposit(1000, 4000, 0, 0), Some((2000, 2000, 1000, 4000)));
}

#[test]
fn deposit_adds_to_standing_liquidity() {
    // standing liquidity isqrt(4 * 10^12) = 2 * 10^6
    assert_eq!(
        oracle::deposit(1000, 4000, 1_000_000, 4_000_000),
        Some((2000, 2_002_000, 1_001_000, 4_004_000))
    );
}

#[test]
fn deposit_rejects_disproportionate_pair() {
    assert_eq!(oracle::deposit(1000, 1000, 1_000_000, 4_000_000), None);
}

#[test]
fn withdraw_pays_proportionally() {
    // liquidity = 2 * 10^6; 1000 burned pays 500 of A and 2000 of B
    assert_eq!(
        oracle::withdraw(1000, 1_000_000, 4_000_000),
        Some((500, 2000, 1_999_000, 999_500, 3_998_000))
    );
}

#[test]
fn withdraw_rejects_empty_pool_and_excess_burn() {
    assert_eq!(oracle::withdraw(1, 0, 0), None);
    assert_eq!(oracle::withdraw(2_000_001, 1_000_000, 4_000_000), None);
}

#[test]
fn adaptive_fee_scales_with_imbalance() {
    // alpha at the full scale: no fee at all
    assert_eq!(oracle::adaptive_fee(1000, 1_000_000_000_000_000_000), Some((1000, 0)));
    // alpha zero: the fee approaches half the output
    assert_eq!(oracle::adaptive_fee(10, 0), Some((5, 5)));
    // alpha above the scale underflows the numerator
    assert_eq!(oracle::adaptive_fee(1000, 1_000_000_000_000_000_001), None);
    // a large output overflows the 64-bit product
    assert_eq!(oracle::adaptive_fee(u64::MAX, 0), None);
}

#[test]
fn tax_takes_five_basis_points_of_a_percent() {
    assert_eq!(oracle::tax(10_000), Some((9_995, 5)));
    assert_eq!(oracle::tax(0), Some((0, 0)));
    // 0.05% of 1999 truncates to zero: the pool keeps the remainder
    assert_eq!(oracle::tax(1999), Some((1999, 0)));
    assert_eq!(oracle::tax(u64::MAX), None);
}

#[test]
fn swap_prices_against_the_geometric_mean() {
    // liquidity = isqrt(100) = 10; new bid reserve 20; quoted ask 10/20 = 0;
    // gross output 10; adaptive fee 3 at alpha = 1/2; no tax at this size
    assert_eq!(oracle::swap(10, 10, 10), Some((7, 0, 20, 3)));
}

#[test]
fn swap_rejects_scaled_bid_overflow() {
    // the imbalance factor is computed at 64 bits: a bid reserve above 18
    // overflows against the 10^18 scale
    assert_eq!(oracle::swap(10, 100, 100), None);
}

#[test]
fn swap_rejects_empty_sides() {
    // zero bid against zero reserve: the new bid reserve divides by zero
    assert_eq!(oracle::swap(0, 0, 100), None);
}
