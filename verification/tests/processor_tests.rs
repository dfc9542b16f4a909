use swap_pool::error::AppError;
use swap_pool::key::Pubkey;
use swap_pool::pool::{Pool, PoolState};
use swap_pool::processor::{
    add_liquidity, add_sided_liquidity, freeze_pool, initialize_pool, remove_liquidity, route,
    swap, thaw_pool, transfer_ownership, transfer_taxman, update_fee,
};

fn key(n: u8) -> Pubkey {
    Pubkey::new_from_array([n; 32])
}

fn blank_pool() -> Pool {
    Pool {
        owner: key(0),
        state: PoolState::Uninitialized,
        mint_lpt: key(0),
        taxman: key(0),
        mint_a: key(0),
        treasury_a: key(0),
        reserve_a: 0,
        mint_b: key(0),
        treasury_b: key(0),
        reserve_b: 0,
        fee_ratio: 0,
        tax_ratio: 0,
    }
}

fn live_pool() -> Pool {
    Pool {
        owner: key(1),
        state: PoolState::Initialized,
        mint_lpt: key(2),
        taxman: key(3),
        mint_a: key(4),
        treasury_a: key(5),
        reserve_a: 1_000_000,
        mint_b: key(6),
        treasury_b: key(7),
        reserve_b: 4_000_000,
        fee_ratio: 3_000_000_000_000_000,
        tax_ratio: 0,
    }
}

#[test]
fn initialize_seeds_reserves_and_mints_initial_lp() {
    let mut pool = blank_pool();
    let r = initialize_pool::exec(
        1000,
        4000,
        3_000_000_000_000_000,
        0,
        &key(1),
        &key(2),
        &key(3),
        &key(4),
        &key(5),
        &key(6),
        &key(7),
        &mut pool,
    );
    // lp = isqrt(1000 * 4000) = 2000
    assert_eq!(r, Ok(2000));
    assert_eq!(pool.state, PoolState::Initialized);
    assert_eq!(pool.reserve_a, 1000);
    assert_eq!(pool.reserve_b, 4000);
    assert_eq!(pool.owner, key(1));
    assert_eq!(pool.mint_a, key(4));
    assert_eq!(pool.mint_b, key(6));
}

#[test]
fn initialize_rejects_same_mint_before_any_write() {
    let mut pool = blank_pool();
    let r = initialize_pool::exec(
        1000,
        4000,
        0,
        0,
        &key(1),
        &key(2),
        &key(3),
        &key(4),
        &key(5),
        &key(4),
        &key(7),
        &mut pool,
    );
    assert_eq!(r, Err(AppError::SameMint));
    assert_eq!(pool, blank_pool());
}

#[test]
fn initialize_rejects_zero_delta_and_double_init() {
    let mut pool = blank_pool();
    assert_eq!(
        initialize_pool::exec(
            0,
            4000,
            0,
            0,
            &key(1),
            &key(2),
            &key(3),
            &key(4),
            &key(5),
            &key(6),
            &key(7),
            &mut pool
        ),
        Err(AppError::ZeroValue)
    );
    let mut live = live_pool();
    assert_eq!(
        initialize_pool::exec(
            1000,
            4000,
            0,
            0,
            &key(1),
            &key(2),
            &key(3),
            &key(4),
            &key(5),
            &key(6),
            &key(7),
            &mut live
        ),
        Err(AppError::AlreadyInitialized)
    );
}

#[test]
fn initialize_rejects_ratio_at_the_scale() {
    let mut pool = blank_pool();
    assert_eq!(
        initialize_pool::exec(
            1000,
            4000,
            1_000_000_000_000_000_000,
            0,
            &key(1),
            &key(2),
            &key(3),
            &key(4),
            &key(5),
            &key(6),
            &key(7),
            &mut pool
        ),
        Err(AppError::Overflow)
    );
}

#[test]
fn initialize_lp_helper() {
    assert_eq!(initialize_pool::lp(1000, 4000), Some(2000));
    assert_eq!(initialize_pool::lp(0, 4000), Some(0));
}

#[test]
fn add_liquidity_commits_raked_pair() {
    let mut pool = live_pool();
    let r = add_liquidity::exec(
        1000,
        9000,
        2_000_000,
        &mut pool,
        &key(2),
        &key(4),
        &key(5),
        &key(6),
        &key(7),
    );
    // 9000 of B is capped to 4000; 5000 stays with the caller
    assert_eq!(r, Ok((2000, 0, 5000)));
    assert_eq!(pool.reserve_a, 1_001_000);
    assert_eq!(pool.reserve_b, 4_004_000);
}

#[test]
fn add_liquidity_rejects_frozen_and_unmatched_and_zero() {
    let mut frozen = live_pool();
    frozen.state = PoolState::Frozen;
    let before = frozen;
    assert_eq!(
        add_liquidity::exec(1000, 4000, 2_000_000, &mut frozen, &key(2), &key(4), &key(5), &key(6), &key(7)),
        Err(AppError::FrozenPool)
    );
    assert_eq!(frozen, before);

    let mut pool = live_pool();
    assert_eq!(
        add_liquidity::exec(1000, 4000, 2_000_000, &mut pool, &key(9), &key(4), &key(5), &key(6), &key(7)),
        Err(AppError::UnmatchedPool)
    );
    assert_eq!(
        add_liquidity::exec(0, 0, 2_000_000, &mut pool, &key(2), &key(4), &key(5), &key(6), &key(7)),
        Err(AppError::ZeroValue)
    );
    assert_eq!(pool, live_pool());
}

#[test]
fn remove_liquidity_pays_out_both_sides() {
    let mut pool = live_pool();
    let r = remove_liquidity::exec(
        200_000,
        2_000_000,
        &mut pool,
        &key(2),
        &key(4),
        &key(5),
        &key(6),
        &key(7),
    );
    assert_eq!(r, Ok((100_000, 400_000)));
    assert_eq!(pool.reserve_a, 900_000);
    assert_eq!(pool.reserve_b, 3_600_000);
}

#[test]
fn remove_liquidity_works_while_frozen() {
    // withdrawal stays open on a frozen pool; only swaps and deposits stop
    let mut pool = live_pool();
    pool.state = PoolState::Frozen;
    let r = remove_liquidity::exec(
        200_000,
        2_000_000,
        &mut pool,
        &key(2),
        &key(4),
        &key(5),
        &key(6),
        &key(7),
    );
    assert_eq!(r, Ok((100_000, 400_000)));
}

#[test]
fn remove_liquidity_rejects_zero_and_excess() {
    let mut pool = live_pool();
    assert_eq!(
        remove_liquidity::exec(0, 2_000_000, &mut pool, &key(2), &key(4), &key(5), &key(6), &key(7)),
        Err(AppError::ZeroValue)
    );
    assert_eq!(
        remove_liquidity::exec(2_000_001, 2_000_000, &mut pool, &key(2), &key(4), &key(5), &key(6), &key(7)),
        Err(AppError::Overflow)
    );
    assert_eq!(pool, live_pool());
}

#[test]
fn remove_liquidity_withdraw_helper() {
    assert_eq!(
        remove_liquidity::withdraw(1000, 1_000_000, 4_000_000),
        Some((500, 2000, 999_500, 3_998_000))
    );
    assert_eq!(remove_liquidity::withdraw(1, 0, 0), None);
}

#[test]
fn swap_quotes_fee_and_updates_reserves() {
    let mut pool = live_pool();
    let r = swap::exec(10_000, 0, &mut pool, &key(4), &key(6));
    // gross 39,604; fee 118 reinjected; no tax; net 39,486
    assert_eq!(r, Ok((39_486, 0)));
    assert_eq!(pool.reserve_a, 1_010_000);
    assert_eq!(pool.reserve_b, 3_960_514);
}

#[test]
fn swap_preserves_constant_product() {
    let before = live_pool();
    let mut pool = live_pool();
    swap::exec(10_000, 0, &mut pool, &key(4), &key(6)).unwrap();
    let old_product = (before.reserve_a as u128) * (before.reserve_b as u128);
    let fee = 118u128;
    let new_bid = pool.reserve_a as u128;
    let new_ask = pool.reserve_b as u128;
    // pre-fee the invariant never increases, post-fee it never decreases
    assert!(new_bid * (new_ask - fee) <= old_product);
    assert!(new_bid * new_ask >= old_product);
}

#[test]
fn swap_on_frozen_pool_fails_without_mutation() {
    let mut pool = live_pool();
    pool.state = PoolState::Frozen;
    let before = pool;
    assert_eq!(swap::exec(10_000, 0, &mut pool, &key(4), &key(6)), Err(AppError::FrozenPool));
    assert_eq!(pool, before);
}

#[test]
fn swap_rejects_same_mint_zero_amount_unknown_mint_and_slippage() {
    let mut pool = live_pool();
    assert_eq!(swap::exec(10_000, 0, &mut pool, &key(4), &key(4)), Err(AppError::SameMint));
    assert_eq!(swap::exec(0, 0, &mut pool, &key(4), &key(6)), Err(AppError::ZeroValue));
    assert_eq!(swap::exec(10_000, 0, &mut pool, &key(9), &key(6)), Err(AppError::UnmatchedPool));
    assert_eq!(
        swap::exec(10_000, 39_487, &mut pool, &key(4), &key(6)),
        Err(AppError::ExceedLimit)
    );
    assert_eq!(pool, live_pool());
}

#[test]
fn freeze_and_thaw_toggle_state_for_the_owner_only() {
    let mut pool = live_pool();
    assert_eq!(freeze_pool::exec(&mut pool, &key(9)), Err(AppError::InvalidOwner));
    assert_eq!(pool.state, PoolState::Initialized);
    assert_eq!(freeze_pool::exec(&mut pool, &key(1)), Ok(()));
    assert_eq!(pool.state, PoolState::Frozen);
    assert_eq!(thaw_pool::exec(&mut pool, &key(9)), Err(AppError::InvalidOwner));
    assert_eq!(thaw_pool::exec(&mut pool, &key(1)), Ok(()));
    assert_eq!(pool.state, PoolState::Initialized);
}

#[test]
fn ownership_and_taxman_transfers() {
    let mut pool = live_pool();
    assert_eq!(transfer_taxman::exec(&mut pool, &key(9), &key(10)), Err(AppError::InvalidOwner));
    assert_eq!(transfer_taxman::exec(&mut pool, &key(1), &key(10)), Ok(()));
    assert_eq!(pool.taxman, key(10));
    assert_eq!(transfer_ownership::exec(&mut pool, &key(9), &key(11)), Err(AppError::InvalidOwner));
    assert_eq!(transfer_ownership::exec(&mut pool, &key(1), &key(11)), Ok(()));
    assert_eq!(pool.owner, key(11));
    // the old owner lost its rights
    assert_eq!(freeze_pool::exec(&mut pool, &key(1)), Err(AppError::InvalidOwner));
}

#[test]
fn update_fee_bounds_the_ratios() {
    let mut pool = live_pool();
    assert_eq!(update_fee::exec(&mut pool, &key(9), 1, 2), Err(AppError::InvalidOwner));
    assert_eq!(
        update_fee::exec(&mut pool, &key(1), 1_000_000_000_000_000_000, 0),
        Err(AppError::Overflow)
    );
    assert_eq!(pool, live_pool());
    assert_eq!(update_fee::exec(&mut pool, &key(1), 5_000_000_000_000_000, 7), Ok(()));
    assert_eq!(pool.fee_ratio, 5_000_000_000_000_000);
    assert_eq!(pool.tax_ratio, 7);
}

#[test]
fn route_threads_each_hop_output_forward() {
    // hop 1: A -> B on a 1:4 pool; hop 2: B -> C on a 1:1 pool; no fees
    let mut first = live_pool();
    first.fee_ratio = 0;
    let mut second = live_pool();
    second.fee_ratio = 0;
    second.mint_a = key(6);
    second.treasury_a = key(12);
    second.reserve_a = 1_000_000;
    second.mint_b = key(8);
    second.treasury_b = key(13);
    second.reserve_b = 1_000_000;
    let mut pools = vec![first, second];
    let bids = vec![key(4), key(6)];
    let asks = vec![key(6), key(8)];
    let r = route::exec(10_000, 0, &mut pools, &bids, &asks);
    // hop 1 pays 39,604 of B; hop 2 turns that into 38,096 of C
    assert_eq!(r, Ok(38_096));
    assert_eq!(pools[0].reserve_a, 1_010_000);
    assert_eq!(pools[0].reserve_b, 3_960_396);
    assert_eq!(pools[1].reserve_a, 1_039_604);
    assert_eq!(pools[1].reserve_b, 961_904);
}

#[test]
fn route_enforces_the_final_floor_only() {
    let mut first = live_pool();
    first.fee_ratio = 0;
    let mut pools = vec![first];
    let bids = vec![key(4)];
    let asks = vec![key(6)];
    let r = route::exec(10_000, 40_000, &mut pools, &bids, &asks);
    assert_eq!(r, Err(AppError::ExceedLimit));
    // no hop is committed on failure
    assert_eq!(pools[0], first);
}

#[test]
fn route_aborts_wholly_on_a_failing_hop() {
    let mut first = live_pool();
    first.fee_ratio = 0;
    let mut frozen = live_pool();
    frozen.fee_ratio = 0;
    frozen.state = PoolState::Frozen;
    let mut pools = vec![first, frozen];
    let bids = vec![key(4), key(4)];
    let asks = vec![key(6), key(6)];
    let r = route::exec(10_000, 0, &mut pools, &bids, &asks);
    assert_eq!(r, Err(AppError::FrozenPool));
    assert_eq!(pools[0], first);
    assert_eq!(pools[1], frozen);
}

#[test]
fn sided_deposit_equals_plain_deposit_when_proportional() {
    let mut plain = live_pool();
    let mut sided = live_pool();
    let r1 = add_liquidity::exec(
        1000,
        4000,
        2_000_000,
        &mut plain,
        &key(2),
        &key(4),
        &key(5),
        &key(6),
        &key(7),
    );
    let r2 = add_sided_liquidity::exec(
        1000,
        4000,
        2_000_000,
        &mut sided,
        &key(2),
        &key(4),
        &key(5),
        &key(6),
        &key(7),
    );
    assert_eq!(r1, Ok((2000, 0, 0)));
    assert_eq!(r2, Ok(2000));
    assert_eq!(plain, sided);
}

#[test]
fn sided_deposit_swaps_the_remainder_in() {
    let mut pool = live_pool();
    pool.fee_ratio = 0;
    let before_product = (pool.reserve_a as u128) * (pool.reserve_b as u128);
    let r = add_sided_liquidity::exec(
        100_000,
        0,
        2_000_000,
        &mut pool,
        &key(2),
        &key(4),
        &key(5),
        &key(6),
        &key(7),
    );
    // the search bids 48,809 of the one-sided 100,000; the swap pays
    // 186,151 of B at reserves (1,048,809, 3,813,849); the second deposit
    // rakes (51,191, 186,148) in and mints 51,191 * 2,000,000 / 1,048,809
    assert_eq!(r, Ok(97_617));
    assert_eq!(pool.reserve_a, 1_100_000);
    assert_eq!(pool.reserve_b, 3_999_997);
    // the swap and both deposits only ever grow the pool's holdings
    assert!((pool.reserve_a as u128) * (pool.reserve_b as u128) >= before_product);
    assert_eq!(pool.state, PoolState::Initialized);
    assert_eq!(pool.mint_a, key(4));
}

#[test]
fn sided_deposit_rejects_frozen_pool() {
    let mut pool = live_pool();
    pool.state = PoolState::Frozen;
    let before = pool;
    assert_eq!(
        add_sided_liquidity::exec(1000, 0, 2_000_000, &mut pool, &key(2), &key(4), &key(5), &key(6), &key(7)),
        Err(AppError::FrozenPool)
    );
    assert_eq!(pool, before);
}

#[test]
fn sided_rake_finds_the_balancing_bid() {
    // no fee: starting from 50,000 the search settles at 48,809
    let mut plain = live_pool();
    plain.fee_ratio = 0;
    assert_eq!(add_sided_liquidity::rake(100_000, &key(4), &key(6), &plain), Some(48_809));
    // the 0.3% fee shifts the balance point slightly upward
    let bid = add_sided_liquidity::rake(100_000, &key(4), &key(6), &live_pool());
    assert_eq!(bid, Some(48_886));
    assert!(bid.unwrap() <= 100_000);
}

#[test]
fn route_with_no_hops_returns_the_input() {
    let mut pools: Vec<Pool> = vec![];
    let bids: Vec<Pubkey> = vec![];
    let asks: Vec<Pubkey> = vec![];
    assert_eq!(route::exec(5, 5, &mut pools, &bids, &asks), Ok(5));
    assert_eq!(route::exec(5, 6, &mut pools, &bids, &asks), Err(AppError::ExceedLimit));
}

#[test]
fn sided_deposit_seeds_a_fresh_pool_in_full() {
    let mut pool = live_pool();
    pool.reserve_a = 0;
    pool.reserve_b = 0;
    let r = add_sided_liquidity::exec(
        1000,
        4000,
        0,
        &mut pool,
        &key(2),
        &key(4),
        &key(5),
        &key(6),
        &key(7),
    );
    assert_eq!(r, Ok(2000));
    assert_eq!(pool.reserve_a, 1000);
    assert_eq!(pool.reserve_b, 4000);
}

#[test]
fn swap_rejects_uninitialized_record() {
    // a crafted record with live mints but a blank lifecycle state names no
    // usable pool
    let mut pool = live_pool();
    pool.state = PoolState::Uninitialized;
    let before = pool;
    assert_eq!(swap::exec(10_000, 0, &mut pool, &key(4), &key(6)), Err(AppError::UnmatchedPool));
    assert_eq!(pool, before);
}

#[test]
fn add_liquidity_rejects_uninitialized_record() {
    let mut pool = live_pool();
    pool.state = PoolState::Uninitialized;
    let before = pool;
    assert_eq!(
        add_liquidity::exec(1000, 4000, 2_000_000, &mut pool, &key(2), &key(4), &key(5), &key(6), &key(7)),
        Err(AppError::UnmatchedPool)
    );
    assert_eq!(pool, before);
    assert_eq!(
        add_sided_liquidity::exec(1000, 0, 2_000_000, &mut pool, &key(2), &key(4), &key(5), &key(6), &key(7)),
        Err(AppError::UnmatchedPool)
    );
    assert_eq!(pool, before);
}
