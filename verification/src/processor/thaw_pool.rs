use crate::error::AppError;
use crate::key::Pubkey;
use crate::pool::{Pool, PoolState};
use vstd::prelude::*;

verus! {

/// What thawing does: only the configured admin may thaw; the record goes
/// back to the ordinary initialized state.
pub open spec fn spec_thaw(p: Pool, owner: Pubkey) -> Result<Pool, AppError> {
    if p.owner != owner {
        Err(AppError::InvalidOwner)
    } else {
        Ok(Pool { state: PoolState::Initialized, ..p })
    }
}

/// Thaws a pool on behalf of `owner`; fails with `InvalidOwner` for anyone
/// else, leaving the record untouched.
pub fn exec(pool: &mut Pool, owner: &Pubkey) -> (r: Result<(), AppError>)
    ensures
        ({
            match spec_thaw(*old(pool), *owner) {
                Ok(p1) => r is Ok && *final(pool) == p1,
                Err(e) => r == Err::<(), AppError>(e) && *final(pool) == *old(pool),
            }
        }),
{
    match pool.is_owner(*owner) {
        Ok(_) => (),
        Err(e) => {
            return Err(e);
        },
    }
    pool.state = PoolState::Initialized;
    Ok(())
}

} // verus!
