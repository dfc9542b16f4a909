use crate::error::AppError;
use crate::key::Pubkey;
use crate::pool::Pool;
use vstd::prelude::*;

verus! {

/// What transferring the tax recipient does: only the configured admin may
/// rewrite `taxman`.
pub open spec fn spec_transfer_taxman(p: Pool, owner: Pubkey, new_taxman: Pubkey) -> Result<
    Pool,
    AppError,
> {
    if p.owner != owner {
        Err(AppError::InvalidOwner)
    } else {
        Ok(Pool { taxman: new_taxman, ..p })
    }
}

/// Rewrites the tax recipient on behalf of `owner`; fails with
/// `InvalidOwner` for anyone else, leaving the record untouched.
pub fn exec(pool: &mut Pool, owner: &Pubkey, new_taxman: &Pubkey) -> (r: Result<(), AppError>)
    ensures
        ({
            match spec_transfer_taxman(*old(pool), *owner, *new_taxman) {
                Ok(p1) => r is Ok && *final(pool) == p1,
                Err(e) => r == Err::<(), AppError>(e) && *final(pool) == *old(pool),
            }
        }),
{
    match pool.is_owner(*owner) {
        Ok(_) => (),
        Err(e) => {
            return Err(e);
        },
    }
    pool.taxman = *new_taxman;
    Ok(())
}

} // verus!
