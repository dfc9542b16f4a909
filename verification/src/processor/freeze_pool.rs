use crate::error::AppError;
use crate::key::Pubkey;
use crate::pool::{Pool, PoolState};
use vstd::prelude::*;

verus! {

/// What freezing does: only the configured admin may freeze; everything but
/// the lifecycle state is kept.
pub open spec fn spec_freeze(p: Pool, owner: Pubkey) -> Result<Pool, AppError> {
    if p.owner != owner {
        Err(AppError::InvalidOwner)
    } else {
        Ok(Pool { state: PoolState::Frozen, ..p })
    }
}

/// Freezes a pool on behalf of `owner`; fails with `InvalidOwner` for
/// anyone else, leaving the record untouched.
pub fn exec(pool: &mut Pool, owner: &Pubkey) -> (r: Result<(), AppError>)
    ensures
        ({
            match spec_freeze(*old(pool), *owner) {
                Ok(p1) => r is Ok && *final(pool) == p1,
                Err(e) => r == Err::<(), AppError>(e) && *final(pool) == *old(pool),
            }
        }),
{
    match pool.is_owner(*owner) {
        Ok(_) => (),
        Err(e) => {
            return Err(e);
        },
    }
    pool.state = PoolState::Frozen;
    Ok(())
}

} // verus!
