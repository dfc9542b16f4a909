use crate::error::AppError;
use crate::key::Pubkey;
use crate::pool::Pool;
use vstd::prelude::*;

verus! {

/// What transferring admin rights does: only the current admin may rewrite
/// `owner`.
pub open spec fn spec_transfer_ownership(p: Pool, owner: Pubkey, new_owner: Pubkey) -> Result<
    Pool,
    AppError,
> {
    if p.owner != owner {
        Err(AppError::InvalidOwner)
    } else {
        Ok(Pool { owner: new_owner, ..p })
    }
}

/// Rewrites the admin on behalf of the current `owner`; fails with
/// `InvalidOwner` for anyone else, leaving the record untouched.
pub fn exec(pool: &mut Pool, owner: &Pubkey, new_owner: &Pubkey) -> (r: Result<(), AppError>)
    ensures
        ({
            match spec_transfer_ownership(*old(pool), *owner, *new_owner) {
                Ok(p1) => r is Ok && *final(pool) == p1,
                Err(e) => r == Err::<(), AppError>(e) && *final(pool) == *old(pool),
            }
        }),
{
    match pool.is_owner(*owner) {
        Ok(_) => (),
        Err(e) => {
            return Err(e);
        },
    }
    pool.owner = *new_owner;
    Ok(())
}

} // verus!
