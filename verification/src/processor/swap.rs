use crate::error::AppError;
use crate::key::Pubkey;
use crate::math::{lemma_mul_div_le, PRECISION};
use crate::pool::Pool;
use vstd::arithmetic::mul::lemma_mul_is_commutative;
use vstd::prelude::*;

verus! {

/// The record with the reserve of one side replaced: side 0 is asset A,
/// side 1 is asset B.
pub open spec fn spec_set_reserve(p: Pool, side: int, v: u64) -> Pool {
    if side == 0 {
        Pool { reserve_a: v, ..p }
    } else {
        Pool { reserve_b: v, ..p }
    }
}

/// What a swap does, in request order: the pool must be initialized and not
/// frozen, the two mints must differ, the bid must be positive; the quote
/// comes from the constant-product curve, the fee is reinjected into the
/// ask reserve, the tax goes to the taxman, and the net output must reach
/// the caller's floor. A record that was never initialized names no usable
/// pool, however its mint fields read.
pub open spec fn spec_swap_exec(
    p: Pool,
    amount: u64,
    limit: u64,
    bid_mint: Pubkey,
    ask_mint: Pubkey,
) -> Result<(Pool, u64, u64), AppError> {
    if p.state is Frozen {
        Err(AppError::FrozenPool)
    } else if p.state is Uninitialized {
        Err(AppError::UnmatchedPool)
    } else if bid_mint == ask_mint {
        Err(AppError::SameMint)
    } else if amount == 0 {
        Err(AppError::ZeroValue)
    } else {
        match p.spec_curve(amount as int, bid_mint, ask_mint) {
            Err(e) => Err(e),
            Ok(q) => {
                let task = q.0;
                let nbr = q.1;
                let tnar = q.2;
                let fee = p.spec_fee_cut(task);
                let tax = p.spec_tax_cut(task);
                let ask_amount = task - fee - tax;
                let nar = tnar + fee;
                if ask_amount < limit {
                    Err(AppError::ExceedLimit)
                } else {
                    let bid_side = p.spec_reserve(bid_mint)->0;
                    let ask_side = p.spec_reserve(ask_mint)->0;
                    let p1 = spec_set_reserve(p, bid_side.0, nbr as u64);
                    let p2 = spec_set_reserve(p1, ask_side.0, nar as u64);
                    Ok((p2, ask_amount as u64, tax as u64))
                }
            },
        }
    }
}

/// Swaps `amount` of the bid asset for the ask asset; returns the net
/// output and the tax cut. Nothing is written on any failure, and the fee
/// and tax ratios are untouched, so the record stays well-formed.
pub fn exec(
    amount: u64,
    limit: u64,
    pool: &mut Pool,
    bid_mint: &Pubkey,
    ask_mint: &Pubkey,
) -> (r: Result<(u64, u64), AppError>)
    requires
        old(pool).wf(),
    ensures
        ({
            match spec_swap_exec(*old(pool), amount, limit, *bid_mint, *ask_mint) {
                Ok(t) => r == Ok::<(u64, u64), AppError>((t.1, t.2)) && *final(pool) == t.0,
                Err(e) => r == Err::<(u64, u64), AppError>(e) && *final(pool) == *old(pool),
            }
        }),
        final(pool).wf(),
{
    if pool.is_frozen() {
        return Err(AppError::FrozenPool);
    }
    if !pool.is_initialized() {
        return Err(AppError::UnmatchedPool);
    }
    if *bid_mint == *ask_mint {
        return Err(AppError::SameMint);
    }
    if amount == 0 {
        return Err(AppError::ZeroValue);
    }
    let (temp_ask_amount, new_bid_reserve, temp_new_ask_reserve) = match pool.curve(
        amount,
        bid_mint,
        ask_mint,
    ) {
        Ok(v) => v,
        Err(e) => {
            return Err(e);
        },
    };
    let (ask_amount, fee, tax) = pool.fee(temp_ask_amount);
    proof {
        // the fee never exceeds the gross output, so reinjecting it keeps
        // the ask reserve within its old value
        lemma_mul_div_le(temp_ask_amount as int, pool.fee_ratio as int, PRECISION as int);
        lemma_mul_is_commutative(temp_ask_amount as int, pool.fee_ratio as int);
    }
    let new_ask_reserve = temp_new_ask_reserve + fee;
    if ask_amount < limit {
        return Err(AppError::ExceedLimit);
    }
    let (bid_code, _) = match pool.get_reserve(bid_mint) {
        Ok(v) => v,
        Err(_) => {
            return Err(AppError::UnmatchedPool);
        },
    };
    if bid_code == 0 {
        pool.reserve_a = new_bid_reserve;
    } else {
        pool.reserve_b = new_bid_reserve;
    }
    let (ask_code, _) = match pool.get_reserve(ask_mint) {
        Ok(v) => v,
        Err(_) => {
            return Err(AppError::UnmatchedPool);
        },
    };
    if ask_code == 0 {
        pool.reserve_a = new_ask_reserve;
    } else {
        pool.reserve_b = new_ask_reserve;
    }
    Ok((ask_amount, tax))
}

} // verus!
