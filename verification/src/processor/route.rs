use crate::error::AppError;
use crate::key::Pubkey;
use crate::pool::Pool;
use crate::processor::swap::spec_swap_exec;
use vstd::prelude::*;

verus! {

/// What a route computes: each hop swaps the running amount through its
/// pool with no per-hop floor, and the output of hop `i` is the input of
/// hop `i + 1`; the result is the updated pools and the final output.
pub open spec fn spec_route(pools: Seq<Pool>, bids: Seq<Pubkey>, asks: Seq<Pubkey>, amount: u64) -> Result<
    (Seq<Pool>, u64),
    AppError,
>
    decreases pools.len(),
{
    if pools.len() == 0 {
        Ok((Seq::<Pool>::empty(), amount))
    } else {
        match spec_swap_exec(pools[0], amount, 0, bids[0], asks[0]) {
            Err(e) => Err(e),
            Ok(t) => match spec_route(
                pools.subrange(1, pools.len() as int),
                bids.subrange(1, bids.len() as int),
                asks.subrange(1, asks.len() as int),
                t.1,
            ) {
                Err(e) => Err(e),
                Ok(rest) => Ok((seq![t.0] + rest.0, rest.1)),
            },
        }
    }
}

/// Chains one swap per pool, threading each hop's output into the next
/// hop's input; a single minimum-output floor is enforced after the last
/// hop. On any failure no pool is changed.
pub fn exec(
    amount: u64,
    limit: u64,
    pools: &mut Vec<Pool>,
    bid_mints: &Vec<Pubkey>,
    ask_mints: &Vec<Pubkey>,
) -> (r: Result<u64, AppError>)
    requires
        old(pools)@.len() == bid_mints@.len(),
        old(pools)@.len() == ask_mints@.len(),
        forall|j: int| 0 <= j < old(pools)@.len() ==> old(pools)@[j].wf(),
    ensures
        ({
            match spec_route(old(pools)@, bid_mints@, ask_mints@, amount) {
                Ok(t) => if t.1 >= limit {
                    r == Ok::<u64, AppError>(t.1) && final(pools)@ == t.0
                } else {
                    r == Err::<u64, AppError>(AppError::ExceedLimit) && final(pools)@ == old(
                        pools,
                    )@
                },
                Err(e) => r == Err::<u64, AppError>(e) && final(pools)@ == old(pools)@,
            }
        }),
{
    let ghost full: Seq<Pool> = pools@;
    let ghost fb: Seq<Pubkey> = bid_mints@;
    let ghost fa: Seq<Pubkey> = ask_mints@;
    let n = pools.len();
    let mut updated: Vec<Pool> = Vec::new();
    let mut ask_amount: u64 = amount;
    let mut i: usize = 0;
    proof {
        assert(full.subrange(0, full.len() as int) =~= full);
        assert(fb.subrange(0, fb.len() as int) =~= fb);
        assert(fa.subrange(0, fa.len() as int) =~= fa);
        let init = spec_route(full, fb, fa, amount);
        if init is Ok {
            assert(Seq::<Pool>::empty() + init->Ok_0.0 =~= init->Ok_0.0);
        }
    }
    while i < n
        invariant
            0 <= i <= n,
            pools@ == full,
            bid_mints@ == fb,
            ask_mints@ == fa,
            n == full.len(),
            full.len() == fb.len(),
            full.len() == fa.len(),
            forall|j: int| 0 <= j < full.len() ==> full[j].wf(),
            updated@.len() == i,
            spec_route(full, fb, fa, amount) == (match spec_route(
                full.subrange(i as int, full.len() as int),
                fb.subrange(i as int, fb.len() as int),
                fa.subrange(i as int, fa.len() as int),
                ask_amount,
            ) {
                Ok(t) => Ok::<(Seq<Pool>, u64), AppError>((updated@ + t.0, t.1)),
                Err(e) => Err::<(Seq<Pool>, u64), AppError>(e),
            }),
        decreases n - i,
    {
        let ghost k = i as int;
        let ghost rem_p = full.subrange(k, full.len() as int);
        let ghost rem_b = fb.subrange(k, fb.len() as int);
        let ghost rem_a = fa.subrange(k, fa.len() as int);
        proof {
            assert(rem_p[0] == full[k]);
            assert(rem_p.subrange(1, rem_p.len() as int) =~= full.subrange(
                k + 1,
                full.len() as int,
            ));
            assert(rem_b.subrange(1, rem_b.len() as int) =~= fb.subrange(k + 1, fb.len() as int));
            assert(rem_a.subrange(1, rem_a.len() as int) =~= fa.subrange(k + 1, fa.len() as int));
        }
        proof {
            // one unfolding of the route: the first hop decides or delegates
            assert(spec_route(rem_p, rem_b, rem_a, ask_amount) == (match spec_swap_exec(
                rem_p[0],
                ask_amount,
                0,
                rem_b[0],
                rem_a[0],
            ) {
                Err(e) => Err::<(Seq<Pool>, u64), AppError>(e),
                Ok(t) => match spec_route(
                    rem_p.subrange(1, rem_p.len() as int),
                    rem_b.subrange(1, rem_b.len() as int),
                    rem_a.subrange(1, rem_a.len() as int),
                    t.1,
                ) {
                    Err(e) => Err::<(Seq<Pool>, u64), AppError>(e),
                    Ok(rest) => Ok::<(Seq<Pool>, u64), AppError>((seq![t.0] + rest.0, rest.1)),
                },
            }));
        }
        let mut p: Pool = pools[i];
        let bid = bid_mints[i];
        let ask = ask_mints[i];
        let hop = crate::processor::swap::exec(ask_amount, 0, &mut p, &bid, &ask);
        match hop {
            Err(e) => {
                return Err(e);
            },
            Ok(out) => {
                proof {
                    let t = spec_swap_exec(full[k], ask_amount, 0, fb[k], fa[k])->Ok_0;
                    let tail = spec_route(
                        full.subrange(k + 1, full.len() as int),
                        fb.subrange(k + 1, fb.len() as int),
                        fa.subrange(k + 1, fa.len() as int),
                        t.1,
                    );
                    if tail is Ok {
                        let rest = tail->Ok_0;
                        assert((updated@ + (seq![t.0] + rest.0)) =~= ((updated@ + seq![t.0])
                            + rest.0));
                        assert((updated@.push(t.0)) =~= (updated@ + seq![t.0]));
                    }
                }
                updated.push(p);
                ask_amount = out.0;
                i = i + 1;
            },
        }
    }
    proof {
        assert(full.subrange(n as int, full.len() as int) =~= Seq::<Pool>::empty());
        assert(fb.subrange(n as int, fb.len() as int) =~= Seq::<Pubkey>::empty());
        assert(fa.subrange(n as int, fa.len() as int) =~= Seq::<Pubkey>::empty());
        assert(updated@ + Seq::<Pool>::empty() =~= updated@);
    }
    if ask_amount < limit {
        return Err(AppError::ExceedLimit);
    }
    *pools = updated;
    Ok(ask_amount)
}

} // verus!
