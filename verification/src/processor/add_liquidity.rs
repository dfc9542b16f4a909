use crate::error::AppError;
use crate::key::Pubkey;
use crate::pool::Pool;
use vstd::prelude::*;

verus! {

/// What adding liquidity does, in request order: the pool must be
/// initialized and not frozen, the named accounts must match the record, at
/// least one delta must be positive; then the raked pair is committed to
/// the reserves and the proportional liquidity is minted. Returns the
/// minted amount and both uncommitted remainders. A record that was never
/// initialized names no usable pool, however its account fields read.
pub open spec fn spec_add_liquidity(
    p: Pool,
    delta_a: u64,
    delta_b: u64,
    lpt_supply: u64,
    mint_lpt: Pubkey,
    mint_a: Pubkey,
    treasury_a: Pubkey,
    mint_b: Pubkey,
    treasury_b: Pubkey,
) -> Result<(Pool, u64, u64, u64), AppError> {
    if p.state is Frozen {
        Err(AppError::FrozenPool)
    } else if p.state is Uninitialized {
        Err(AppError::UnmatchedPool)
    } else if p.mint_lpt != mint_lpt || p.mint_a != mint_a || p.mint_b != mint_b
        || p.treasury_a != treasury_a || p.treasury_b != treasury_b {
        Err(AppError::UnmatchedPool)
    } else if delta_a == 0 && delta_b == 0 {
        Err(AppError::ZeroValue)
    } else {
        match p.spec_deposit(delta_a as int, delta_b as int, lpt_supply as int) {
            Err(e) => Err(e),
            Ok(t) => Ok(
                (
                    (Pool { reserve_a: t.3 as u64, reserve_b: t.4 as u64, ..p }),
                    t.2 as u64,
                    (delta_a - t.0) as u64,
                    (delta_b - t.1) as u64,
                ),
            ),
        }
    }
}

/// Adds liquidity against a supply of `lpt_supply` outstanding liquidity
/// tokens; returns the minted amount and the remainders of `delta_a` and
/// `delta_b` that stay with the caller. Nothing is written on any failure.
pub fn exec(
    delta_a: u64,
    delta_b: u64,
    lpt_supply: u64,
    pool: &mut Pool,
    mint_lpt: &Pubkey,
    mint_a: &Pubkey,
    treasury_a: &Pubkey,
    mint_b: &Pubkey,
    treasury_b: &Pubkey,
) -> (r: Result<(u64, u64, u64), AppError>)
    ensures
        ({
            match spec_add_liquidity(
                *old(pool),
                delta_a,
                delta_b,
                lpt_supply,
                *mint_lpt,
                *mint_a,
                *treasury_a,
                *mint_b,
                *treasury_b,
            ) {
                Ok(t) => r == Ok::<(u64, u64, u64), AppError>((t.1, t.2, t.3)) && *final(pool)
                    == t.0,
                Err(e) => r == Err::<(u64, u64, u64), AppError>(e) && *final(pool) == *old(pool),
            }
        }),
{
    if pool.is_frozen() {
        return Err(AppError::FrozenPool);
    }
    if !pool.is_initialized() {
        return Err(AppError::UnmatchedPool);
    }
    if pool.mint_lpt != *mint_lpt || pool.mint_a != *mint_a || pool.mint_b != *mint_b
        || pool.treasury_a != *treasury_a || pool.treasury_b != *treasury_b {
        return Err(AppError::UnmatchedPool);
    }
    if delta_a == 0 && delta_b == 0 {
        return Err(AppError::ZeroValue);
    }
    let (a_star, b_star, lpt, reserve_a, reserve_b, _) = match pool.deposit(
        delta_a,
        delta_b,
        lpt_supply,
    ) {
        Ok(v) => v,
        Err(e) => {
            return Err(e);
        },
    };
    pool.reserve_a = reserve_a;
    pool.reserve_b = reserve_b;
    Ok((lpt, delta_a - a_star, delta_b - b_star))
}

} // verus!
