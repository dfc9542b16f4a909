use crate::error::AppError;
use crate::key::Pubkey;
use crate::math::{isqrt, PRECISION};
use crate::pool::{Pool, PoolState};
use vstd::prelude::*;

verus! {

/// The first liquidity issue: the geometric mean of the seeded reserves,
/// rounded down.
pub fn lp(delta_a: u64, delta_b: u64) -> (r: Option<u64>)
    ensures
        r is Some,
        r->0 as int == isqrt(delta_a as int * delta_b as int),
{
    Some(crate::math::sqrt_u64_product(delta_a, delta_b))
}

/// What initializing does, in request order: distinct mints, both deltas
/// positive, ratios below the fixed-point scale, a blank record; then every
/// field is written at once and the first liquidity is
/// `isqrt(delta_a * delta_b)`.
pub open spec fn spec_initialize(
    p: Pool,
    delta_a: u64,
    delta_b: u64,
    fee_ratio: u64,
    tax_ratio: u64,
    owner: Pubkey,
    mint_lpt: Pubkey,
    taxman: Pubkey,
    mint_a: Pubkey,
    treasury_a: Pubkey,
    mint_b: Pubkey,
    treasury_b: Pubkey,
) -> Result<(Pool, u64), AppError> {
    if mint_a == mint_b {
        Err(AppError::SameMint)
    } else if delta_a == 0 || delta_b == 0 {
        Err(AppError::ZeroValue)
    } else if fee_ratio >= PRECISION || tax_ratio >= PRECISION {
        Err(AppError::Overflow)
    } else if !(p.state is Uninitialized) {
        Err(AppError::AlreadyInitialized)
    } else {
        let seeded = Pool {
            owner,
            state: PoolState::Initialized,
            mint_lpt,
            taxman,
            mint_a,
            treasury_a,
            reserve_a: delta_a,
            mint_b,
            treasury_b,
            reserve_b: delta_b,
            fee_ratio,
            tax_ratio,
        };
        Ok((seeded, isqrt(delta_a as int * delta_b as int) as u64))
    }
}

/// Creates a pool: seeds both reserves, records every identity and ratio,
/// and reports the first liquidity amount to issue. Nothing is written on
/// any failure.
pub fn exec(
    delta_a: u64,
    delta_b: u64,
    fee_ratio: u64,
    tax_ratio: u64,
    owner: &Pubkey,
    mint_lpt: &Pubkey,
    taxman: &Pubkey,
    mint_a: &Pubkey,
    treasury_a: &Pubkey,
    mint_b: &Pubkey,
    treasury_b: &Pubkey,
    pool: &mut Pool,
) -> (r: Result<u64, AppError>)
    ensures
        ({
            match spec_initialize(
                *old(pool),
                delta_a,
                delta_b,
                fee_ratio,
                tax_ratio,
                *owner,
                *mint_lpt,
                *taxman,
                *mint_a,
                *treasury_a,
                *mint_b,
                *treasury_b,
            ) {
                Ok(t) => r == Ok::<u64, AppError>(t.1) && *final(pool) == t.0 && t.0.wf(),
                Err(e) => r == Err::<u64, AppError>(e) && *final(pool) == *old(pool),
            }
        }),
{
    if *mint_a == *mint_b {
        return Err(AppError::SameMint);
    }
    if delta_a == 0 || delta_b == 0 {
        return Err(AppError::ZeroValue);
    }
    if fee_ratio >= PRECISION || tax_ratio >= PRECISION {
        return Err(AppError::Overflow);
    }
    if pool.is_initialized() {
        return Err(AppError::AlreadyInitialized);
    }
    let lpt = match lp(delta_a, delta_b) {
        Some(v) => v,
        None => {
            return Err(AppError::Overflow);
        },
    };
    pool.owner = *owner;
    pool.state = PoolState::Initialized;
    pool.mint_lpt = *mint_lpt;
    pool.taxman = *taxman;
    pool.mint_a = *mint_a;
    pool.treasury_a = *treasury_a;
    pool.reserve_a = delta_a;
    pool.mint_b = *mint_b;
    pool.treasury_b = *treasury_b;
    pool.reserve_b = delta_b;
    pool.fee_ratio = fee_ratio;
    pool.tax_ratio = tax_ratio;
    Ok(lpt)
}

} // verus!
