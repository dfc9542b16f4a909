use crate::error::AppError;
use crate::key::Pubkey;
use crate::math::{isqrt, lemma_mul_div_le, PRECISION};
use crate::oracle::u64_max;
use vstd::arithmetic::div_mod::{lemma_div_is_ordered, lemma_div_multiples_vanish_fancy};
use vstd::arithmetic::mul::{
    lemma_mul_is_commutative, lemma_mul_is_distributive_sub, lemma_mul_upper_bound,
};
use vstd::prelude::*;

verus! {

/// Lifecycle of a pool record.
#[derive(Clone, Copy, Debug, PartialEq, Eq, Structural)]
pub enum PoolState {
    Uninitialized,
    Initialized,
    Frozen,
}

impl Default for PoolState {
    /// A blank record starts uninitialized.
    fn default() -> (r: Self)
        ensures
            r == PoolState::Uninitialized,
    {
        PoolState::Uninitialized
    }
}

/// The persisted pool record: two reserves, the fee and tax ratios at
/// fixed-point scale, the admin and tax identities, and references to the
/// pooled assets and their custody accounts.
#[derive(Clone, Copy, Debug, PartialEq, Eq)]
pub struct Pool {
    pub owner: Pubkey,
    pub state: PoolState,
    pub mint_lpt: Pubkey,
    pub taxman: Pubkey,
    pub mint_a: Pubkey,
    pub treasury_a: Pubkey,
    pub reserve_a: u64,
    pub mint_b: Pubkey,
    pub treasury_b: Pubkey,
    pub reserve_b: u64,
    pub fee_ratio: u64,
    pub tax_ratio: u64,
}

/// Trims an over-proportioned deposit pair down to the pool ratio: the side
/// whose share is larger is capped so that `a * rb` and `b * ra` agree up to
/// integer truncation.
pub open spec fn spec_rake(a: int, b: int, ra: int, rb: int) -> (int, int) {
    let l = a * rb;
    let r = b * ra;
    if l > r {
        (r / rb, b)
    } else if l < r {
        (a, l / ra)
    } else {
        (a, b)
    }
}

impl Pool {
    /// Both ratios stay below the fixed-point scale.
    pub open spec fn wf(self) -> bool {
        &&& self.fee_ratio < PRECISION
        &&& self.tax_ratio < PRECISION
    }

    /// The side (0 for A, 1 for B) and reserve of a configured mint.
    pub open spec fn spec_reserve(self, mint: Pubkey) -> Option<(int, int)> {
        if self.mint_a == mint {
            Some((0, self.reserve_a as int))
        } else if self.mint_b == mint {
            Some((1, self.reserve_b as int))
        } else {
            None
        }
    }

    /// Constant-product quote: `(ask_amount, new_bid_reserve,
    /// new_ask_reserve)`, where the new ask reserve is the floor of
    /// `bid * ask / (bid + amount)`.
    pub open spec fn spec_curve(self, amt: int, bid_mint: Pubkey, ask_mint: Pubkey) -> Result<
        (int, int, int),
        AppError,
    > {
        match (self.spec_reserve(bid_mint), self.spec_reserve(ask_mint)) {
            (Some(b), Some(a)) => {
                let br = b.1;
                let ar = a.1;
                if br + amt > u64_max() || br + amt == 0 {
                    Err(AppError::Overflow)
                } else {
                    let nbr = br + amt;
                    let nar = br * ar / nbr;
                    Ok((ar - nar, nbr, nar))
                }
            },
            _ => Err(AppError::UnmatchedPool),
        }
    }

    /// The fee cut on an output amount.
    pub open spec fn spec_fee_cut(self, ask: int) -> int {
        (self.fee_ratio as int) * ask / (PRECISION as int)
    }

    /// The tax cut, levied on what remains after the fee.
    pub open spec fn spec_tax_cut(self, ask: int) -> int {
        (self.tax_ratio as int) * (ask - self.spec_fee_cut(ask)) / (PRECISION as int)
    }

    /// What `deposit` returns: the committed pair after raking, the minted
    /// liquidity `a * supply / reserve_a`, both new reserves and the new
    /// supply.
    pub open spec fn spec_deposit(self, da: int, db: int, liq: int) -> Result<
        (int, int, int, int, int, int),
        AppError,
    > {
        let ra = self.reserve_a as int;
        let rb = self.reserve_b as int;
        if ra == 0 && rb == 0 {
            let lpt = isqrt(da * db);
            Ok((da, db, lpt, da, db, lpt))
        } else if ra == 0 || rb == 0 {
            Err(AppError::Overflow)
        } else {
            let ab = spec_rake(da, db, ra, rb);
            let a = ab.0;
            let b = ab.1;
            if a + ra > u64_max() || b + rb > u64_max() {
                Err(AppError::Overflow)
            } else {
                let lpt = a * liq / ra;
                if lpt > u64_max() || liq + lpt > u64_max() {
                    Err(AppError::Overflow)
                } else {
                    Ok((a, b, lpt, a + ra, b + rb, liq + lpt))
                }
            }
        }
    }

    /// What `withdraw` returns: both payouts, the burned amount, both new
    /// reserves and the new supply; each new reserve is the floor of
    /// `(supply - lpt) * reserve / supply`.
    pub open spec fn spec_withdraw(self, lpt: int, liq: int) -> Result<
        (int, int, int, int, int, int),
        AppError,
    > {
        if lpt > liq || liq == 0 {
            Err(AppError::Overflow)
        } else {
            let nl = liq - lpt;
            let nra = nl * (self.reserve_a as int) / liq;
            let nrb = nl * (self.reserve_b as int) / liq;
            Ok(
                (
                    self.reserve_a - nra,
                    self.reserve_b - nrb,
                    lpt,
                    nra,
                    nrb,
                    nl,
                ),
            )
        }
    }

    /// True exactly on a frozen record.
    pub fn is_frozen(&self) -> (r: bool)
        ensures
            r == (self.state is Frozen),
    {
        self.state == PoolState::Frozen
    }

    /// True once the record has been initialized (frozen or not).
    pub fn is_initialized(&self) -> (r: bool)
        ensures
            r == !(self.state is Uninitialized),
    {
        self.state != PoolState::Uninitialized
    }

    /// Accepts exactly the configured admin.
    pub fn is_owner(&self, expected_owner: Pubkey) -> (r: Result<(), AppError>)
        ensures
            r is Ok <==> self.owner == expected_owner,
            r is Err ==> r == Err::<(), AppError>(AppError::InvalidOwner),
    {
        if self.owner != expected_owner {
            return Err(AppError::InvalidOwner);
        }
        Ok(())
    }

    /// Looks a mint up among the two configured assets; the side is 0 for
    /// the first asset and 1 for the second.
    pub fn get_reserve(&self, mint: &Pubkey) -> (r: Result<(u8, u64), AppError>)
        ensures
            self.mint_a == *mint ==> r == Ok::<(u8, u64), AppError>((0u8, self.reserve_a)),
            self.mint_a != *mint && self.mint_b == *mint ==> r == Ok::<(u8, u64), AppError>(
                (1u8, self.reserve_b),
            ),
            self.mint_a != *mint && self.mint_b != *mint ==> r == Err::<(u8, u64), AppError>(
                AppError::UnmatchedPool,
            ),
    {
        if self.mint_a == *mint {
            return Ok((0, self.reserve_a));
        }
        if self.mint_b == *mint {
            return Ok((1, self.reserve_b));
        }
        Err(AppError::UnmatchedPool)
    }

    /// Constant-product quote in 128-bit precision; fails with
    /// `UnmatchedPool` on an unknown mint and with `Overflow` when the bid
    /// reserve cannot take the bid, or both bid reserve and bid are zero.
    pub fn curve(&self, bid_amount: u64, bid_mint: &Pubkey, ask_mint: &Pubkey) -> (r: Result<
        (u64, u64, u64),
        AppError,
    >)
        ensures
            res3_int(r) == self.spec_curve(bid_amount as int, *bid_mint, *ask_mint),
    {
        let (_, bid_reserve) = match self.get_reserve(bid_mint) {
            Ok(v) => v,
            Err(_) => {
                return Err(AppError::UnmatchedPool);
            },
        };
        let (_, ask_reserve) = match self.get_reserve(ask_mint) {
            Ok(v) => v,
            Err(_) => {
                return Err(AppError::UnmatchedPool);
            },
        };
        let new_bid_reserve = match bid_reserve.checked_add(bid_amount) {
            Some(v) => v,
            None => {
                return Err(AppError::Overflow);
            },
        };
        if new_bid_reserve == 0 {
            return Err(AppError::Overflow);
        }
        proof {
            lemma_mul_upper_bound(bid_reserve as int, u64_max(), ask_reserve as int, u64_max());
            lemma_mul_div_le(ask_reserve as int, bid_reserve as int, new_bid_reserve as int);
            lemma_mul_is_commutative(ask_reserve as int, bid_reserve as int);
        }
        let new_ask_reserve = ((bid_reserve as u128) * (ask_reserve as u128) / (new_bid_reserve
            as u128)) as u64;
        let ask_amount = ask_reserve - new_ask_reserve;
        Ok((ask_amount, new_bid_reserve, new_ask_reserve))
    }

    /// Splits an output amount into the net part, the fee (reinjected into
    /// the ask reserve by a swap) and the tax; both cuts round down, so the
    /// pool keeps every remainder.
    pub fn fee(&self, ask_amount: u64) -> (r: (u64, u64, u64))
        requires
            self.wf(),
        ensures
            r.1 as int == self.spec_fee_cut(ask_amount as int),
            r.2 as int == self.spec_tax_cut(ask_amount as int),
            r.0 == ask_amount - r.1 - r.2,
    {
        proof {
            lemma_mul_upper_bound(self.fee_ratio as int, PRECISION as int, ask_amount as int, u64_max());
            lemma_mul_div_le(ask_amount as int, self.fee_ratio as int, PRECISION as int);
            lemma_mul_is_commutative(ask_amount as int, self.fee_ratio as int);
        }
        let fee = ((self.fee_ratio as u128) * (ask_amount as u128) / (PRECISION as u128)) as u64;
        let temp_amount = ask_amount - fee;
        proof {
            lemma_mul_upper_bound(self.tax_ratio as int, PRECISION as int, temp_amount as int, u64_max());
            lemma_mul_div_le(temp_amount as int, self.tax_ratio as int, PRECISION as int);
            lemma_mul_is_commutative(temp_amount as int, self.tax_ratio as int);
        }
        let tax = ((self.tax_ratio as u128) * (temp_amount as u128) / (PRECISION as u128)) as u64;
        let amount = temp_amount - tax;
        (amount, fee, tax)
    }

    /// Adds liquidity. On empty reserves the pair is committed in full and
    /// the first supply is `isqrt(delta_a * delta_b)`; otherwise the pair is
    /// raked to the pool ratio first and the minted amount is proportional
    /// to the committed share of reserve A.
    pub fn deposit(&self, delta_a: u64, delta_b: u64, liquidity: u64) -> (r: Result<
        (u64, u64, u64, u64, u64, u64),
        AppError,
    >)
        ensures
            res6_int(r) == self.spec_deposit(delta_a as int, delta_b as int, liquidity as int),
            r matches Ok(t) ==> t.0 <= delta_a && t.1 <= delta_b,
    {
        if self.reserve_a == 0 && self.reserve_b == 0 {
            let lpt = crate::math::sqrt_u64_product(delta_a, delta_b);
            return Ok((delta_a, delta_b, lpt, delta_a, delta_b, lpt));
        }
        if self.reserve_a == 0 || self.reserve_b == 0 {
            return Err(AppError::Overflow);
        }
        let (a, b) = rake(delta_a, delta_b, self.reserve_a, self.reserve_b);
        let new_reserve_a = match a.checked_add(self.reserve_a) {
            Some(v) => v,
            None => {
                return Err(AppError::Overflow);
            },
        };
        let new_reserve_b = match b.checked_add(self.reserve_b) {
            Some(v) => v,
            None => {
                return Err(AppError::Overflow);
            },
        };
        proof {
            lemma_mul_upper_bound(a as int, u64_max(), liquidity as int, u64_max());
        }
        let lpt128: u128 = (a as u128) * (liquidity as u128) / (self.reserve_a as u128);
        if lpt128 > 0xffff_ffff_ffff_ffff {
            return Err(AppError::Overflow);
        }
        let lpt = lpt128 as u64;
        let new_liquidity = match liquidity.checked_add(lpt) {
            Some(v) => v,
            None => {
                return Err(AppError::Overflow);
            },
        };
        Ok((a, b, lpt, new_reserve_a, new_reserve_b, new_liquidity))
    }

    /// Removes liquidity: burning `lpt` of a supply of `liquidity` pays out
    /// the proportional share of both reserves, rounded in the pool's
    /// favour; each payout is bounded by its reserve by construction.
    pub fn withdraw(&self, lpt: u64, liquidity: u64) -> (r: Result<
        (u64, u64, u64, u64, u64, u64),
        AppError,
    >)
        ensures
            res6_int(r) == self.spec_withdraw(lpt as int, liquidity as int),
    {
        let new_liquidity = match liquidity.checked_sub(lpt) {
            Some(v) => v,
            None => {
                return Err(AppError::Overflow);
            },
        };
        if liquidity == 0 {
            return Err(AppError::Overflow);
        }
        proof {
            lemma_mul_upper_bound(new_liquidity as int, u64_max(), self.reserve_a as int, u64_max());
            lemma_mul_upper_bound(new_liquidity as int, u64_max(), self.reserve_b as int, u64_max());
            lemma_mul_div_le(self.reserve_a as int, new_liquidity as int, liquidity as int);
            lemma_mul_div_le(self.reserve_b as int, new_liquidity as int, liquidity as int);
            lemma_mul_is_commutative(self.reserve_a as int, new_liquidity as int);
            lemma_mul_is_commutative(self.reserve_b as int, new_liquidity as int);
        }
        let new_reserve_a = ((new_liquidity as u128) * (self.reserve_a as u128) / (liquidity
            as u128)) as u64;
        let new_reserve_b = ((new_liquidity as u128) * (self.reserve_b as u128) / (liquidity
            as u128)) as u64;
        let delta_a = self.reserve_a - new_reserve_a;
        let delta_b = self.reserve_b - new_reserve_b;
        Ok((delta_a, delta_b, lpt, new_reserve_a, new_reserve_b, new_liquidity))
    }
}

/// Result views with components widened to `int`, for exact contracts.
pub open spec fn res3_int(r: Result<(u64, u64, u64), AppError>) -> Result<(int, int, int), AppError> {
    match r {
        Ok(t) => Ok((t.0 as int, t.1 as int, t.2 as int)),
        Err(e) => Err(e),
    }
}

pub open spec fn res6_int(r: Result<(u64, u64, u64, u64, u64, u64), AppError>) -> Result<
    (int, int, int, int, int, int),
    AppError,
> {
    match r {
        Ok(t) => Ok((t.0 as int, t.1 as int, t.2 as int, t.3 as int, t.4 as int, t.5 as int)),
        Err(e) => Err(e),
    }
}

/// Takes the correctly proportioned part of a deposit pair and returns it;
/// the remainder stays with the caller.
fn rake(a: u64, b: u64, reserve_a: u64, reserve_b: u64) -> (r: (u64, u64))
    requires
        reserve_a > 0,
        reserve_b > 0,
    ensures
        (r.0 as int, r.1 as int) == spec_rake(a as int, b as int, reserve_a as int, reserve_b as int),
        r.0 <= a,
        r.1 <= b,
{
    proof {
        lemma_mul_upper_bound(a as int, u64_max(), reserve_b as int, u64_max());
        lemma_mul_upper_bound(b as int, u64_max(), reserve_a as int, u64_max());
    }
    let l: u128 = (a as u128) * (reserve_b as u128);
    let r: u128 = (b as u128) * (reserve_a as u128);
    if l > r {
        proof {
            assert(1 <= a) by (nonlinear_arith)
                requires
                    (a as int) * (reserve_b as int) > (b as int) * (reserve_a as int),
                    0 <= a,
                    0 <= b,
                    0 < reserve_a,
            ;
            lemma_div_is_ordered(r as int, l as int - 1, reserve_b as int);
            lemma_mul_is_distributive_sub(reserve_b as int, a as int, 1);
            lemma_mul_is_commutative(a as int, reserve_b as int);
            lemma_div_multiples_vanish_fancy(a as int - 1, reserve_b as int - 1, reserve_b as int);
        }
        let a_star = (r / (reserve_b as u128)) as u64;
        (a_star, b)
    } else if l < r {
        proof {
            assert(1 <= b) by (nonlinear_arith)
                requires
                    (b as int) * (reserve_a as int) > (a as int) * (reserve_b as int),
                    0 <= a,
                    0 <= b,
                    0 < reserve_b,
            ;
            lemma_div_is_ordered(l as int, r as int - 1, reserve_a as int);
            lemma_mul_is_distributive_sub(reserve_a as int, b as int, 1);
            lemma_mul_is_commutative(b as int, reserve_a as int);
            lemma_div_multiples_vanish_fancy(b as int - 1, reserve_a as int - 1, reserve_a as int);
        }
        let b_star = (l / (reserve_a as u128)) as u64;
        (a, b_star)
    } else {
        (a, b)
    }
}

} // verus!
