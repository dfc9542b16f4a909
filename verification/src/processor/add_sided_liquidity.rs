use crate::error::AppError;
use crate::key::Pubkey;
use crate::math::{lemma_mul_div_le, PRECISION};
use crate::pool::Pool;
use crate::processor::add_liquidity;
use crate::processor::add_liquidity::spec_add_liquidity;
use crate::processor::swap;
use crate::processor::swap::spec_swap_exec;
use vstd::arithmetic::mul::{lemma_mul_is_commutative, lemma_mul_upper_bound};
use vstd::prelude::*;

verus! {

/// The bisection search, step by step: a simulated curve-and-fee swap of
/// the current `bid` yields the remainder `amount - bid` the caller would
/// keep and the remainder `ask * new_bid_reserve / new_ask_reserve` that
/// would match the post-swap ratio; the next step is half their distance,
/// the bid moves by it towards the balance point, and the search stops as
/// soon as the step no longer shrinks. Any failed checked step of the
/// simulation ends the search with `None`.
pub open spec fn spec_bisect(
    p: Pool,
    amount: u64,
    bid_mint: Pubkey,
    ask_mint: Pubkey,
    bid: u64,
    delta: u64,
) -> Option<u64>
    decreases delta,
{
    match p.spec_curve(bid as int, bid_mint, ask_mint) {
        Err(_) => None,
        Ok(q) => {
            let task = q.0;
            let nbr = q.1;
            let tnar = q.2;
            let fee = p.spec_fee_cut(task);
            let ask = task - fee - p.spec_tax_cut(task);
            let nar = tnar + fee;
            if nar == 0 {
                None
            } else {
                let rem = amount - bid;
                let expected = ask * nbr / nar;
                if expected > 0xffff_ffff_ffff_ffff {
                    None
                } else {
                    let next = if rem > expected {
                        (rem - expected) / 2
                    } else {
                        (expected - rem) / 2
                    };
                    if delta > next {
                        if rem > expected {
                            spec_bisect(p, amount, bid_mint, ask_mint, (bid + next) as u64, next as u64)
                        } else if next > bid {
                            None
                        } else {
                            spec_bisect(p, amount, bid_mint, ask_mint, (bid - next) as u64, next as u64)
                        }
                    } else {
                        Some(bid)
                    }
                }
            }
        },
    }
}

/// Searches, by iterative bisection, how much of a single-sided remainder
/// should be swapped into the other asset so that the swap output plus the
/// untouched rest lands on the pool ratio. The returned value is exactly
/// what `spec_bisect` denotes from the opening guess of half the remainder;
/// the step size strictly shrinks, so the search always terminates, and the
/// bid never exceeds the remainder.
pub fn rake(amount: u64, bid_mint: &Pubkey, ask_mint: &Pubkey, pool: &Pool) -> (r: Option<u64>)
    requires
        pool.wf(),
    ensures
        r == spec_bisect(*pool, amount, *bid_mint, *ask_mint, (amount / 2) as u64, amount),
        r matches Some(bid) ==> bid <= amount,
{
    let mut delta: u64 = amount;
    let mut bid_amount: u64 = amount / 2;
    loop
        invariant
            pool.wf(),
            bid_amount <= amount,
            spec_bisect(*pool, amount, *bid_mint, *ask_mint, bid_amount, delta) == spec_bisect(
                *pool,
                amount,
                *bid_mint,
                *ask_mint,
                (amount / 2) as u64,
                amount,
            ),
        ensures
            bid_amount <= amount,
            spec_bisect(*pool, amount, *bid_mint, *ask_mint, (amount / 2) as u64, amount) == Some(
                bid_amount,
            ),
        decreases delta,
    {
        let ghost b0: u64 = bid_amount;
        let ghost d0: u64 = delta;
        // Simulate a swap of the current bid guess
        let (temp_ask_amount, new_bid_reserve, temp_new_ask_reserve) = match pool.curve(
            bid_amount,
            bid_mint,
            ask_mint,
        ) {
            Ok(v) => v,
            Err(_) => {
                proof {
                    assert(spec_bisect(*pool, amount, *bid_mint, *ask_mint, b0, d0) is None);
                }
                return None;
            },
        };
        let (ask_amount, fee, _) = pool.fee(temp_ask_amount);
        proof {
            lemma_mul_div_le(temp_ask_amount as int, pool.fee_ratio as int, PRECISION as int);
            lemma_mul_is_commutative(temp_ask_amount as int, pool.fee_ratio as int);
        }
        let new_ask_reserve = temp_new_ask_reserve + fee;
        if new_ask_reserve == 0 {
            proof {
                assert(spec_bisect(*pool, amount, *bid_mint, *ask_mint, b0, d0) is None);
            }
            return None;
        }
        // Compute the updated step
        let remainer = amount - bid_amount;
        proof {
            lemma_mul_upper_bound(
                ask_amount as int,
                0xffff_ffff_ffff_ffff,
                new_bid_reserve as int,
                0xffff_ffff_ffff_ffff,
            );
        }
        let expected128: u128 = (ask_amount as u128) * (new_bid_reserve as u128) / (
        new_ask_reserve as u128);
        if expected128 > 0xffff_ffff_ffff_ffff {
            proof {
                assert(spec_bisect(*pool, amount, *bid_mint, *ask_mint, b0, d0) is None);
            }
            return None;
        }
        let expected_remainer = expected128 as u64;
        let next_delta = if remainer > expected_remainer {
            (remainer - expected_remainer) / 2
        } else {
            (expected_remainer - remainer) / 2
        };
        // Stop once the step size cannot shrink further
        if delta > next_delta {
            delta = next_delta;
        } else {
            proof {
                assert(spec_bisect(*pool, amount, *bid_mint, *ask_mint, b0, d0) == Some(b0));
            }
            break;
        }
        // Converge the bid guess
        if remainer > expected_remainer {
            proof {
                assert(spec_bisect(*pool, amount, *bid_mint, *ask_mint, b0, d0) == spec_bisect(
                    *pool,
                    amount,
                    *bid_mint,
                    *ask_mint,
                    (b0 + next_delta) as u64,
                    next_delta,
                ));
            }
            bid_amount = bid_amount + delta;
        } else {
            bid_amount = match bid_amount.checked_sub(delta) {
                Some(v) => v,
                None => {
                    proof {
                        assert(spec_bisect(*pool, amount, *bid_mint, *ask_mint, b0, d0) is None);
                    }
                    return None;
                },
            };
            proof {
                assert(spec_bisect(*pool, amount, *bid_mint, *ask_mint, b0, d0) == spec_bisect(
                    *pool,
                    amount,
                    *bid_mint,
                    *ask_mint,
                    (b0 - next_delta) as u64,
                    next_delta,
                ));
            }
        }
    }
    Some(bid_amount)
}

/// One remainder pass of a sided deposit: the searched bid of the remainder
/// `rem` is swapped from `bid_mint` into `ask_mint` on the record `mid`,
/// and the swap output together with the untouched rest is deposited on top
/// of the already minted `lpt1`. `bid_is_a` says which deposit slot the
/// untouched rest belongs to.
pub open spec fn spec_sided_pass(
    mid: Pool,
    lpt1: u64,
    rem: u64,
    supply: u64,
    mint_lpt: Pubkey,
    mint_a: Pubkey,
    treasury_a: Pubkey,
    mint_b: Pubkey,
    treasury_b: Pubkey,
    bid_mint: Pubkey,
    ask_mint: Pubkey,
    bid_is_a: bool,
) -> Result<(Pool, u64), AppError> {
    match spec_bisect(mid, rem, bid_mint, ask_mint, (rem / 2) as u64, rem) {
        None => Err(AppError::Overflow),
        Some(bid) => match spec_swap_exec(mid, bid, 0, bid_mint, ask_mint) {
            Err(e) => Err(e),
            Ok(s) => {
                let rest = (rem - bid) as u64;
                let da2 = if bid_is_a {
                    rest
                } else {
                    s.1
                };
                let db2 = if bid_is_a {
                    s.1
                } else {
                    rest
                };
                match spec_add_liquidity(
                    s.0,
                    da2,
                    db2,
                    (supply + lpt1) as u64,
                    mint_lpt,
                    mint_a,
                    treasury_a,
                    mint_b,
                    treasury_b,
                ) {
                    Err(e) => Err(e),
                    Ok(u) => if lpt1 + u.1 > 0xffff_ffff_ffff_ffff {
                        Err(AppError::Overflow)
                    } else {
                        Ok((u.0, (lpt1 + u.1) as u64))
                    },
                }
            },
        },
    }
}

/// What a sided deposit does, end to end: the proportional part of the pair
/// goes in first; a remainder on the A side, else on the B side, runs one
/// remainder pass; with no remainder the first deposit is the whole story.
pub open spec fn spec_sided(
    p: Pool,
    delta_a: u64,
    delta_b: u64,
    supply: u64,
    mint_lpt: Pubkey,
    mint_a: Pubkey,
    treasury_a: Pubkey,
    mint_b: Pubkey,
    treasury_b: Pubkey,
) -> Result<(Pool, u64), AppError> {
    match spec_add_liquidity(
        p,
        delta_a,
        delta_b,
        supply,
        mint_lpt,
        mint_a,
        treasury_a,
        mint_b,
        treasury_b,
    ) {
        Err(e) => Err(e),
        Ok(t) => if t.2 > 0 {
            spec_sided_pass(
                t.0,
                t.1,
                t.2,
                supply,
                mint_lpt,
                mint_a,
                treasury_a,
                mint_b,
                treasury_b,
                mint_a,
                mint_b,
                true,
            )
        } else if t.3 > 0 {
            spec_sided_pass(
                t.0,
                t.1,
                t.3,
                supply,
                mint_lpt,
                mint_a,
                treasury_a,
                mint_b,
                treasury_b,
                mint_b,
                mint_a,
                false,
            )
        } else {
            Ok((t.0, t.1))
        },
    }
}

/// Deposits a possibly one-sided pair: the proportional part goes in first;
/// a remainder on either side is split by `rake`, partly swapped into the
/// other asset, and deposited in turn. The total minted liquidity is the
/// sum of both deposits. Nothing is written on any failure.
pub fn exec(
    delta_a: u64,
    delta_b: u64,
    lpt_supply: u64,
    pool: &mut Pool,
    mint_lpt: &Pubkey,
    mint_a: &Pubkey,
    treasury_a: &Pubkey,
    mint_b: &Pubkey,
    treasury_b: &Pubkey,
) -> (r: Result<u64, AppError>)
    requires
        old(pool).wf(),
    ensures
        final(pool).wf(),
        ({
            match spec_sided(
                *old(pool),
                delta_a,
                delta_b,
                lpt_supply,
                *mint_lpt,
                *mint_a,
                *treasury_a,
                *mint_b,
                *treasury_b,
            ) {
                Ok(t) => r == Ok::<u64, AppError>(t.1) && *final(pool) == t.0,
                Err(e) => r == Err::<u64, AppError>(e) && *final(pool) == *old(pool),
            }
        }),
{
    let mut work: Pool = *pool;
    let (unraked_lpt, a_remainer, b_remainer) = match add_liquidity::exec(
        delta_a,
        delta_b,
        lpt_supply,
        &mut work,
        mint_lpt,
        mint_a,
        treasury_a,
        mint_b,
        treasury_b,
    ) {
        Ok(v) => v,
        Err(e) => {
            return Err(e);
        },
    };
    // Handle the remainder of A
    if a_remainer > 0 {
        let bid_amount = match rake(a_remainer, mint_a, mint_b, &work) {
            Some(v) => v,
            None => {
                return Err(AppError::Overflow);
            },
        };
        let a = a_remainer - bid_amount;
        let (b, _) = match swap::exec(bid_amount, 0, &mut work, mint_a, mint_b) {
            Ok(v) => v,
            Err(e) => {
                return Err(e);
            },
        };
        let new_supply = lpt_supply + unraked_lpt;
        let (raked_lpt, _, _) = match add_liquidity::exec(
            a,
            b,
            new_supply,
            &mut work,
            mint_lpt,
            mint_a,
            treasury_a,
            mint_b,
            treasury_b,
        ) {
            Ok(v) => v,
            Err(e) => {
                return Err(e);
            },
        };
        let total = match unraked_lpt.checked_add(raked_lpt) {
            Some(v) => v,
            None => {
                return Err(AppError::Overflow);
            },
        };
        *pool = work;
        return Ok(total);
    }
    // Handle the remainder of B
    if b_remainer > 0 {
        let bid_amount = match rake(b_remainer, mint_b, mint_a, &work) {
            Some(v) => v,
            None => {
                return Err(AppError::Overflow);
            },
        };
        let b = b_remainer - bid_amount;
        let (a, _) = match swap::exec(bid_amount, 0, &mut work, mint_b, mint_a) {
            Ok(v) => v,
            Err(e) => {
                return Err(e);
            },
        };
        let new_supply = lpt_supply + unraked_lpt;
        let (raked_lpt, _, _) = match add_liquidity::exec(
            a,
            b,
            new_supply,
            &mut work,
            mint_lpt,
            mint_a,
            treasury_a,
            mint_b,
            treasury_b,
        ) {
            Ok(v) => v,
            Err(e) => {
                return Err(e);
            },
        };
        let total = match unraked_lpt.checked_add(raked_lpt) {
            Some(v) => v,
            None => {
                return Err(AppError::Overflow);
            },
        };
        *pool = work;
        return Ok(total);
    }
    *pool = work;
    Ok(unraked_lpt)
}

} // verus!
