use crate::error::AppError;
use crate::key::Pubkey;
use crate::oracle::opt4_int;
use crate::pool::Pool;
use vstd::prelude::*;

verus! {

/// The payouts and new reserves of a geometric-mean withdrawal, without the
/// liquidity figures.
pub open spec fn spec_withdraw_payout(dl: int, ra: int, rb: int) -> Option<(int, int, int, int)> {
    match crate::oracle::spec_withdraw(dl, ra, rb) {
        None => None,
        Some(t) => Some((t.0, t.1, t.3, t.4)),
    }
}

/// Withdrawal against the geometric-mean liquidity gauge: pays
/// `reserve * dl / isqrt(reserve_a * reserve_b)` of each asset.
pub fn withdraw(delta_liquidity: u64, reserve_a: u64, reserve_b: u64) -> (r: Option<
    (u64, u64, u64, u64),
>)
    ensures
        opt4_int(r) == spec_withdraw_payout(delta_liquidity as int, reserve_a as int, reserve_b as int),
{
    match crate::oracle::withdraw(delta_liquidity, reserve_a, reserve_b) {
        Some(t) => Some((t.0, t.1, t.3, t.4)),
        None => None,
    }
}

/// What removing liquidity does, in request order: the named accounts must
/// match the record and the burned amount must be positive; then both
/// reserves drop to their proportional share of the remaining supply.
/// Withdrawal stays possible while the pool is frozen.
pub open spec fn spec_remove_liquidity(
    p: Pool,
    lpt: u64,
    lpt_supply: u64,
    mint_lpt: Pubkey,
    mint_a: Pubkey,
    treasury_a: Pubkey,
    mint_b: Pubkey,
    treasury_b: Pubkey,
) -> Result<(Pool, u64, u64), AppError> {
    if p.mint_lpt != mint_lpt || p.mint_a != mint_a || p.mint_b != mint_b
        || p.treasury_a != treasury_a || p.treasury_b != treasury_b {
        Err(AppError::UnmatchedPool)
    } else if lpt == 0 {
        Err(AppError::ZeroValue)
    } else {
        match p.spec_withdraw(lpt as int, lpt_supply as int) {
            Err(e) => Err(e),
            Ok(t) => Ok(
                ((Pool { reserve_a: t.3 as u64, reserve_b: t.4 as u64, ..p }), t.0 as u64, t.1 as u64),
            ),
        }
    }
}

/// Removes liquidity: burns `lpt` of a supply of `lpt_supply` and pays out
/// the proportional share of both reserves. Nothing is written on any
/// failure.
pub fn exec(
    lpt: u64,
    lpt_supply: u64,
    pool: &mut Pool,
    mint_lpt: &Pubkey,
    mint_a: &Pubkey,
    treasury_a: &Pubkey,
    mint_b: &Pubkey,
    treasury_b: &Pubkey,
) -> (r: Result<(u64, u64), AppError>)
    ensures
        ({
            match spec_remove_liquidity(
                *old(pool),
                lpt,
                lpt_supply,
                *mint_lpt,
                *mint_a,
                *treasury_a,
                *mint_b,
                *treasury_b,
            ) {
                Ok(t) => r == Ok::<(u64, u64), AppError>((t.1, t.2)) && *final(pool) == t.0,
                Err(e) => r == Err::<(u64, u64), AppError>(e) && *final(pool) == *old(pool),
            }
        }),
{
    if pool.mint_lpt != *mint_lpt || pool.mint_a != *mint_a || pool.mint_b != *mint_b
        || pool.treasury_a != *treasury_a || pool.treasury_b != *treasury_b {
        return Err(AppError::UnmatchedPool);
    }
    if lpt == 0 {
        return Err(AppError::ZeroValue);
    }
    let (delta_a, delta_b, _, reserve_a, reserve_b, _) = match pool.withdraw(lpt, lpt_supply) {
        Ok(v) => v,
        Err(e) => {
            return Err(e);
        },
    };
    pool.reserve_a = reserve_a;
    pool.reserve_b = reserve_b;
    Ok((delta_a, delta_b))
}

} // verus!
