use swap_pool::error::AppError;
use swap_pool::key::Pubkey;
use swap_pool::pool::{Pool, PoolState};

fn ident(n: u8) -> Pubkey {
    Pubkey::new_from_array([n; 32])
}

fn sample_pool() -> Pool {
    Pool {
        owner: ident(1),
        state: PoolState::Initialized,
        mint_lpt: ident(2),
        taxman: ident(3),
        mint_a: ident(4),
        treasury_a: ident(5),
        reserve_a: 1_000_000,
        mint_b: ident(6),
        treasury_b: ident(7),
        reserve_b: 4_000_000,
        fee_ratio: 3_000_000_000_000_000,
        tax_ratio: 0,
    }
}

#[test]
fn pubkey_equality_is_bytewise() {
    assert_eq!(ident(9), ident(9));
    assert_ne!(ident(9), ident(10));
    let mut bytes = [9u8; 32];
    bytes[31] = 8;
    assert_ne!(ident(9), Pubkey::new_from_array(bytes));
}

#[test]
fn get_reserve_names_each_side() {
    let p = sample_pool();
    assert_eq!(p.get_reserve(&ident(4)), Ok((0, 1_000_000)));
    assert_eq!(p.get_reserve(&ident(6)), Ok((1, 4_000_000)));
    assert_eq!(p.get_reserve(&ident(8)), Err(AppError::UnmatchedPool));
}

#[test]
fn curve_quotes_constant_product() {
    let p = sample_pool();
    // 4 * 10^12 / 1_010_000 rounds down to 3_960_396
    assert_eq!(p.curve(10_000, &ident(4), &ident(6)), Ok((39_604, 1_010_000, 3_960_396)));
    assert_eq!(p.curve(10_000, &ident(4), &ident(9)), Err(AppError::UnmatchedPool));
}

#[test]
fn curve_rejects_overflowing_bid() {
    let p = sample_pool();
    assert_eq!(p.curve(u64::MAX, &ident(4), &ident(6)), Err(AppError::Overflow));
}

#[test]
fn curve_rejects_empty_bid_side() {
    let mut p = sample_pool();
    p.reserve_a = 0;
    assert_eq!(p.curve(0, &ident(4), &ident(6)), Err(AppError::Overflow));
}

#[test]
fn fee_splits_output() {
    let p = sample_pool();
    // 0.3% of 39,604 rounds down to 118; no tax configured
    assert_eq!(p.fee(39_604), (39_486, 118, 0));
    let mut taxed = sample_pool();
    taxed.tax_ratio = 500_000_000_000_000;
    // fee 118, then 0.05% of 39,486 rounds down to 19
    assert_eq!(taxed.fee(39_604), (39_467, 118, 19));
}

#[test]
fn deposit_seeds_fresh_pool() {
    let mut p = sample_pool();
    p.reserve_a = 0;
    p.reserve_b = 0;
    assert_eq!(p.deposit(1000, 4000, 0), Ok((1000, 4000, 2000, 1000, 4000, 2000)));
}

#[test]
fn deposit_rakes_to_pool_ratio() {
    let p = sample_pool();
    // 4000 of B balances 1000 of A at the 1:4 reserve ratio
    assert_eq!(
        p.deposit(1000, 4000, 2_000_000),
        Ok((1000, 4000, 2000, 1_001_000, 4_004_000, 2_002_000))
    );
    // an oversized B side is capped down to the ratio
    assert_eq!(
        p.deposit(1000, 9000, 2_000_000),
        Ok((1000, 4000, 2000, 1_001_000, 4_004_000, 2_002_000))
    );
    // an oversized A side is capped down to the ratio
    assert_eq!(
        p.deposit(5000, 4000, 2_000_000),
        Ok((1000, 4000, 2000, 1_001_000, 4_004_000, 2_002_000))
    );
}

#[test]
fn deposit_of_single_side_commits_nothing() {
    let p = sample_pool();
    assert_eq!(p.deposit(1000, 0, 2_000_000), Ok((0, 0, 0, 1_000_000, 4_000_000, 2_000_000)));
}

#[test]
fn deposit_rejects_lopsided_reserves() {
    let mut p = sample_pool();
    p.reserve_b = 0;
    assert_eq!(p.deposit(1000, 4000, 2_000_000), Err(AppError::Overflow));
}

#[test]
fn withdraw_pays_proportional_share() {
    let p = sample_pool();
    // burning 10% of the supply releases 10% of each reserve
    assert_eq!(
        p.withdraw(200_000, 2_000_000),
        Ok((100_000, 400_000, 200_000, 900_000, 3_600_000, 1_800_000))
    );
}

#[test]
fn withdraw_rejects_excess_burn_and_empty_supply() {
    let p = sample_pool();
    assert_eq!(p.withdraw(2_000_001, 2_000_000), Err(AppError::Overflow));
    assert_eq!(p.withdraw(0, 0), Err(AppError::Overflow));
}

#[test]
fn pack_then_unpack_returns_the_record() {
    let p = sample_pool();
    let bytes = p.pack();
    assert_eq!(bytes.len(), 257);
    assert_eq!(Pool::unpack(&bytes), Ok(p));
}

#[test]
fn pack_lays_fields_out_at_fixed_offsets() {
    let p = sample_pool();
    let bytes = p.pack();
    assert_eq!(&bytes[0..32], &[1u8; 32]);
    assert_eq!(bytes[32], 1); // Initialized
    assert_eq!(&bytes[33..65], &[2u8; 32]);
    assert_eq!(&bytes[161..169], &1_000_000u64.to_le_bytes());
    assert_eq!(&bytes[233..241], &4_000_000u64.to_le_bytes());
    assert_eq!(&bytes[241..249], &3_000_000_000_000_000u64.to_le_bytes());
    assert_eq!(&bytes[249..257], &0u64.to_le_bytes());
}

#[test]
fn unpack_rejects_wrong_length_and_state() {
    assert_eq!(Pool::unpack(&[0u8; 256]), Err(AppError::InvalidInstruction));
    assert_eq!(Pool::unpack(&[0u8; 258]), Err(AppError::InvalidInstruction));
    let mut bytes = sample_pool().pack();
    bytes[32] = 7;
    assert_eq!(Pool::unpack(&bytes), Err(AppError::InvalidInstruction));
}

#[test]
fn frozen_state_round_trips() {
    let mut p = sample_pool();
    p.state = PoolState::Frozen;
    let bytes = p.pack();
    assert_eq!(bytes[32], 2);
    assert_eq!(Pool::unpack(&bytes), Ok(p));
}

#[test]
fn unpack_refuses_uninitialized_records() {
    let mut p = sample_pool();
    p.state = PoolState::Uninitialized;
    let bytes = p.pack();
    assert_eq!(bytes[32], 0);
    // the strict reader refuses a blank record; the unchecked reader, which
    // a creation path uses, still reads it back
    assert_eq!(Pool::unpack(&bytes), Err(AppError::InvalidInstruction));
    assert_eq!(Pool::unpack_unchecked(&bytes), Ok(p));
}
