use crate::math::{isqrt, lemma_div_le_self, lemma_mul_div_le, PRECISION};
use vstd::arithmetic::mul::lemma_mul_upper_bound;
use vstd::prelude::*;

verus! {

/// Tax ratio of the geometric-mean liquidity gauge: 0.05% of the output.
pub const TAX: u64 = 500_000_000_000_000;

/// The largest value a `u64` reserve or amount can take.
pub open spec fn u64_max() -> int {
    0xffff_ffff_ffff_ffff
}

/// Whether depositing `da`/`db` into reserves `ra`/`rb` keeps their ratio,
/// compared at the fixed-point scale.
pub open spec fn spec_check_liquidity(da: int, db: int, ra: int, rb: int) -> bool {
    if da == 0 || db == 0 {
        false
    } else if ra == 0 || rb == 0 {
        true
    } else {
        da * (PRECISION as int) / db == ra * (PRECISION as int) / rb
    }
}

/// What `deposit` returns: the issued liquidity `isqrt(da * db)`, the total
/// liquidity after it, and both new reserves; `None` when the deposit is
/// disproportionate or a 64-bit sum overflows.
pub open spec fn spec_deposit(da: int, db: int, ra: int, rb: int) -> Option<(int, int, int, int)> {
    if !spec_check_liquidity(da, db, ra, rb) {
        None
    } else {
        let dl = isqrt(da * db);
        let l = isqrt(ra * rb);
        if dl + l > u64_max() {
            None
        } else if da + ra > u64_max() {
            None
        } else if db + rb > u64_max() {
            None
        } else {
            Some((dl, dl + l, da + ra, db + rb))
        }
    }
}

/// What `withdraw` returns: both payouts, the remaining liquidity and both
/// new reserves; `None` when the pool holds no liquidity or more is burned
/// than exists.
pub open spec fn spec_withdraw(dl: int, ra: int, rb: int) -> Option<(int, int, int, int, int)> {
    let l = isqrt(ra * rb);
    if l == 0 || dl > l {
        None
    } else {
        let da = ra * dl / l;
        let db = rb * dl / l;
        Some((da, db, l - dl, ra - da, rb - db))
    }
}

/// What `adaptive_fee` returns: the fee `ask * (P - alpha) / (2P - alpha)`
/// at fixed-point scale `P` and the remaining amount; `None` when `alpha`
/// exceeds the scale or the 64-bit product overflows.
pub open spec fn spec_adaptive_fee(ask: int, alpha: int) -> Option<(int, int)> {
    if alpha > PRECISION {
        None
    } else if ask * (PRECISION - alpha) > u64_max() {
        None
    } else {
        let fee = ask * (PRECISION - alpha) / (2 * (PRECISION as int) - alpha);
        Some((ask - fee, fee))
    }
}

/// What `tax` returns: the 0.05% cut and the remaining amount; `None` when
/// the 64-bit product overflows.
pub open spec fn spec_tax(ask: int) -> Option<(int, int)> {
    if ask * (TAX as int) > u64_max() {
        None
    } else {
        let t = ask * (TAX as int) / (PRECISION as int);
        Some((ask - t, t))
    }
}

/// What `swap` returns under the geometric-mean gauge: the net output, the
/// tax cut, and both new reserves, mirroring each checked step.
pub open spec fn spec_swap(amt: int, rb: int, ra: int) -> Option<(int, int, int, int)> {
    let l = isqrt(rb * ra);
    if rb + amt > u64_max() || rb + amt == 0 {
        None
    } else {
        let nrb = rb + amt;
        let tra = l / nrb;
        if ra < tra {
            None
        } else {
            let task = ra - tra;
            if rb * (PRECISION as int) > u64_max() {
                None
            } else {
                let alpha = rb * (PRECISION as int) / nrb;
                match spec_adaptive_fee(task, alpha) {
                    None => None,
                    Some(af) => match spec_tax(task) {
                        None => None,
                        Some(tx) => {
                            let fee = af.1;
                            let tax_cut = tx.1;
                            if task - fee < 0 || task - fee - tax_cut < 0 || tra + fee > u64_max() {
                                None
                            } else {
                                Some((task - fee - tax_cut, tax_cut, nrb, tra + fee))
                            }
                        },
                    },
                }
            }
        }
    }
}

/// Option views with components widened to `int`, for exact contracts.
pub open spec fn opt2_int(r: Option<(u64, u64)>) -> Option<(int, int)> {
    match r {
        None => None,
        Some(t) => Some((t.0 as int, t.1 as int)),
    }
}

pub open spec fn opt4_int(r: Option<(u64, u64, u64, u64)>) -> Option<(int, int, int, int)> {
    match r {
        None => None,
        Some(t) => Some((t.0 as int, t.1 as int, t.2 as int, t.3 as int)),
    }
}

pub open spec fn opt5_int(r: Option<(u64, u64, u64, u64, u64)>) -> Option<
    (int, int, int, int, int),
> {
    match r {
        None => None,
        Some(t) => Some((t.0 as int, t.1 as int, t.2 as int, t.3 as int, t.4 as int)),
    }
}

/// Decides whether a deposit matches the pool ratio; always conclusive.
pub fn check_liquidity(delta_a: u64, delta_b: u64, reserve_a: u64, reserve_b: u64) -> (r: Option<
    bool,
>)
    ensures
        r == Some(
            spec_check_liquidity(
                delta_a as int,
                delta_b as int,
                reserve_a as int,
                reserve_b as int,
            ),
        ),
{
    if delta_a == 0 || delta_b == 0 {
        return Some(false);
    }
    // A recently initialized pool accepts any ratio
    if reserve_a == 0 || reserve_b == 0 {
        return Some(true);
    }
    proof {
        lemma_mul_upper_bound(delta_a as int, u64_max(), PRECISION as int, PRECISION as int);
        lemma_mul_upper_bound(reserve_a as int, u64_max(), PRECISION as int, PRECISION as int);
    }
    let ratio: u128 = (delta_a as u128) * (PRECISION as u128) / (delta_b as u128);
    let expected_ratio: u128 = (reserve_a as u128) * (PRECISION as u128) / (reserve_b as u128);
    Some(ratio == expected_ratio)
}

/// Geometric-mean deposit: issues `isqrt(delta_a * delta_b)` liquidity on
/// top of the standing `isqrt(reserve_a * reserve_b)`.
pub fn deposit(delta_a: u64, delta_b: u64, reserve_a: u64, reserve_b: u64) -> (r: Option<
    (u64, u64, u64, u64),
>)
    ensures
        opt4_int(r) == spec_deposit(
            delta_a as int,
            delta_b as int,
            reserve_a as int,
            reserve_b as int,
        ),
{
    match check_liquidity(delta_a, delta_b, reserve_a, reserve_b) {
        Some(true) => (),
        _ => {
            return None;
        },
    }
    let delta_liquidity = crate::math::sqrt_u64_product(delta_a, delta_b);
    let liquidity = crate::math::sqrt_u64_product(reserve_a, reserve_b);
    let new_liquidity = match delta_liquidity.checked_add(liquidity) {
        Some(v) => v,
        None => {
            return None;
        },
    };
    let new_reserve_a = match delta_a.checked_add(reserve_a) {
        Some(v) => v,
        None => {
            return None;
        },
    };
    let new_reserve_b = match delta_b.checked_add(reserve_b) {
        Some(v) => v,
        None => {
            return None;
        },
    };
    Some((delta_liquidity, new_liquidity, new_reserve_a, new_reserve_b))
}

/// Geometric-mean withdrawal: pays out `reserve * dl / liquidity` of each
/// asset for `dl` burned liquidity.
pub fn withdraw(delta_liquidity: u64, reserve_a: u64, reserve_b: u64) -> (r: Option<
    (u64, u64, u64, u64, u64),
>)
    ensures
        opt5_int(r) == spec_withdraw(delta_liquidity as int, reserve_a as int, reserve_b as int),
{
    let liquidity = crate::math::sqrt_u64_product(reserve_a, reserve_b);
    if liquidity == 0 {
        return None;
    }
    let new_liquidity = match liquidity.checked_sub(delta_liquidity) {
        Some(v) => v,
        None => {
            return None;
        },
    };
    proof {
        lemma_mul_upper_bound(reserve_a as int, u64_max(), delta_liquidity as int, u64_max());
        lemma_mul_upper_bound(reserve_b as int, u64_max(), delta_liquidity as int, u64_max());
        lemma_mul_div_le(reserve_a as int, delta_liquidity as int, liquidity as int);
        lemma_mul_div_le(reserve_b as int, delta_liquidity as int, liquidity as int);
    }
    let delta_a = ((reserve_a as u128) * (delta_liquidity as u128) / (liquidity as u128)) as u64;
    let delta_b = ((reserve_b as u128) * (delta_liquidity as u128) / (liquidity as u128)) as u64;
    let new_reserve_a = reserve_a - delta_a;
    let new_reserve_b = reserve_b - delta_b;
    Some((delta_a, delta_b, new_liquidity, new_reserve_a, new_reserve_b))
}

/// Fee that adapts to the pool imbalance `alpha` (at fixed-point scale):
/// the deeper the swap, the closer the fee gets to half the output.
pub fn adaptive_fee(ask_amount: u64, alpha: u64) -> (r: Option<(u64, u64)>)
    ensures
        opt2_int(r) == spec_adaptive_fee(ask_amount as int, alpha as int),
{
    let numerator = match PRECISION.checked_sub(alpha) {
        Some(v) => v,
        None => {
            return None;
        },
    };
    let denominator = 2 * PRECISION - alpha;
    let scaled = match ask_amount.checked_mul(numerator) {
        Some(v) => v,
        None => {
            return None;
        },
    };
    let fee = scaled / denominator;
    proof {
        lemma_mul_div_le(ask_amount as int, numerator as int, denominator as int);
    }
    let amount = ask_amount - fee;
    Some((amount, fee))
}

/// Flat 0.05% tax on an output amount.
pub fn tax(ask_amount: u64) -> (r: Option<(u64, u64)>)
    ensures
        opt2_int(r) == spec_tax(ask_amount as int),
{
    let scaled = match ask_amount.checked_mul(TAX) {
        Some(v) => v,
        None => {
            return None;
        },
    };
    let t = scaled / PRECISION;
    proof {
        lemma_mul_div_le(ask_amount as int, TAX as int, PRECISION as int);
    }
    let amount = ask_amount - t;
    Some((amount, t))
}

/// Swap quote under the geometric-mean gauge: prices against the root of
/// the product of reserves, then levies the adaptive fee and the tax.
pub fn swap(bid_amount: u64, reserve_bid: u64, reserve_ask: u64) -> (r: Option<
    (u64, u64, u64, u64),
>)
    ensures
        opt4_int(r) == spec_swap(bid_amount as int, reserve_bid as int, reserve_ask as int),
{
    let liquidity = crate::math::sqrt_u64_product(reserve_bid, reserve_ask);
    let new_reserve_bid = match reserve_bid.checked_add(bid_amount) {
        Some(v) => v,
        None => {
            return None;
        },
    };
    if new_reserve_bid == 0 {
        return None;
    }
    proof {
        lemma_div_le_self(liquidity as int, new_reserve_bid as int);
    }
    let temp_reserve_ask = ((liquidity as u128) / (new_reserve_bid as u128)) as u64;
    let temp_ask_amount = match reserve_ask.checked_sub(temp_reserve_ask) {
        Some(v) => v,
        None => {
            return None;
        },
    };
    let scaled_bid = match reserve_bid.checked_mul(PRECISION) {
        Some(v) => v,
        None => {
            return None;
        },
    };
    let alpha = scaled_bid / new_reserve_bid;
    let fee = match adaptive_fee(temp_ask_amount, alpha) {
        Some(pair) => pair.1,
        None => {
            return None;
        },
    };
    let tax_cut = match tax(temp_ask_amount) {
        Some(pair) => pair.1,
        None => {
            return None;
        },
    };
    let after_fee = match temp_ask_amount.checked_sub(fee) {
        Some(v) => v,
        None => {
            return None;
        },
    };
    let ask_amount = match after_fee.checked_sub(tax_cut) {
        Some(v) => v,
        None => {
            return None;
        },
    };
    let new_reserve_ask = match temp_reserve_ask.checked_add(fee) {
        Some(v) => v,
        None => {
            return None;
        },
    };
    Some((ask_amount, tax_cut, new_reserve_bid, new_reserve_ask))
}

} // verus!
