use crate::error::AppError;
use crate::key::Pubkey;
use crate::math::PRECISION;
use crate::pool::Pool;
use vstd::prelude::*;

verus! {

/// What updating the ratios does: only the configured admin may rewrite
/// them, and each must stay below the fixed-point scale, else the fee
/// arithmetic itself would underflow; such a request fails as `Overflow`.
pub open spec fn spec_update_fee(p: Pool, owner: Pubkey, fee_ratio: u64, tax_ratio: u64) -> Result<
    Pool,
    AppError,
> {
    if p.owner != owner {
        Err(AppError::InvalidOwner)
    } else if fee_ratio >= PRECISION || tax_ratio >= PRECISION {
        Err(AppError::Overflow)
    } else {
        Ok(Pool { fee_ratio, tax_ratio, ..p })
    }
}

/// Rewrites the fee and tax ratios on behalf of `owner`; the updated record
/// stays well-formed.
pub fn exec(pool: &mut Pool, owner: &Pubkey, fee_ratio: u64, tax_ratio: u64) -> (r: Result<
    (),
    AppError,
>)
    ensures
        ({
            match spec_update_fee(*old(pool), *owner, fee_ratio, tax_ratio) {
                Ok(p1) => r is Ok && *final(pool) == p1 && p1.wf(),
                Err(e) => r == Err::<(), AppError>(e) && *final(pool) == *old(pool),
            }
        }),
{
    match pool.is_owner(*owner) {
        Ok(_) => (),
        Err(e) => {
            return Err(e);
        },
    }
    if fee_ratio >= PRECISION || tax_ratio >= PRECISION {
        return Err(AppError::Overflow);
    }
    pool.fee_ratio = fee_ratio;
    pool.tax_ratio = tax_ratio;
    Ok(())
}

} // verus!
