use crate::key::Pubkey;
use crate::math::lemma_mul_div_le;
use crate::pool::{spec_rake, Pool};
use crate::processor::swap::spec_swap_exec;
use vstd::arithmetic::div_mod::{lemma_fundamental_div_mod, lemma_mod_bound};
use vstd::arithmetic::mul::{
    lemma_mul_inequality, lemma_mul_is_commutative, lemma_mul_is_distributive_add,
};
use vstd::prelude::*;

verus! {

/// Before the fee is reinjected, a constant-product quote never grows the
/// pool invariant: the new bid reserve times the quoted ask reserve stays
/// within the old product of reserves.
pub proof fn lemma_swap_invariant_pre_fee(br: int, ar: int, amt: int)
    requires
        0 <= br,
        0 <= ar,
        1 <= br + amt,
    ensures
        (br + amt) * ((br * ar) / (br + amt)) <= br * ar,
{
    let nbr = br + amt;
    lemma_fundamental_div_mod(br * ar, nbr);
    lemma_mod_bound(br * ar, nbr);
}

/// Reinjecting at least one unit of fee restores the pool invariant: the
/// new bid reserve times the quoted ask reserve plus the fee is at least
/// the old product of reserves. (With a fee of zero the floor division can
/// lose up to `br + amt - 1`, so the bound needs `fee >= 1`.)
pub proof fn lemma_swap_invariant_post_fee(br: int, ar: int, amt: int, fee: int)
    requires
        0 <= br,
        0 <= ar,
        1 <= br + amt,
        1 <= fee,
    ensures
        (br + amt) * ((br * ar) / (br + amt) + fee) >= br * ar,
{
    let nbr = br + amt;
    let q = (br * ar) / nbr;
    lemma_fundamental_div_mod(br * ar, nbr);
    lemma_mod_bound(br * ar, nbr);
    lemma_mul_is_distributive_add(nbr, q, fee);
    lemma_mul_inequality(1, fee, nbr);
    lemma_mul_is_commutative(fee, nbr);
}

/// The constant-product law on a completed swap: writing `br`, `ar` for the
/// old reserves on the bid and ask side and `nbr`, `nar` for the new ones,
/// the pre-fee invariant never increases, `nbr * (nar - fee) <= br * ar`,
/// and whenever at least one unit of fee is reinjected the invariant never
/// decreases, `nbr * nar >= br * ar`.
pub proof fn lemma_swap_preserves_product(
    p: Pool,
    amount: u64,
    limit: u64,
    bid_mint: Pubkey,
    ask_mint: Pubkey,
)
    requires
        p.wf(),
        spec_swap_exec(p, amount, limit, bid_mint, ask_mint) is Ok,
    ensures
        ({
            let p2 = (spec_swap_exec(p, amount, limit, bid_mint, ask_mint)->Ok_0).0;
            let br = (p.spec_reserve(bid_mint)->0).1;
            let ar = (p.spec_reserve(ask_mint)->0).1;
            let nbr = (p2.spec_reserve(bid_mint)->0).1;
            let nar = (p2.spec_reserve(ask_mint)->0).1;
            let fee = p.spec_fee_cut((p.spec_curve(amount as int, bid_mint, ask_mint)->Ok_0).0);
            &&& nbr == br + amount
            &&& nbr * (nar - fee) <= br * ar
            &&& fee >= 1 ==> nbr * nar >= br * ar
        }),
{
    let br = (p.spec_reserve(bid_mint)->0).1;
    let ar = (p.spec_reserve(ask_mint)->0).1;
    let bs = (p.spec_reserve(bid_mint)->0).0;
    let os = (p.spec_reserve(ask_mint)->0).0;
    let q = p.spec_curve(amount as int, bid_mint, ask_mint)->Ok_0;
    let fee = p.spec_fee_cut(q.0);
    let p2 = (spec_swap_exec(p, amount, limit, bid_mint, ask_mint)->Ok_0).0;
    // the quoted ask reserve stays within the old one, so the gross output
    // is non-negative
    lemma_mul_div_le(ar, br, br + amount);
    lemma_mul_is_commutative(ar, br);
    // the fee stays within the gross output, so the new ask reserve fits
    lemma_mul_div_le(q.0, p.fee_ratio as int, crate::math::PRECISION as int);
    lemma_mul_is_commutative(q.0, p.fee_ratio as int);
    // the two mints sit on different sides, so the two writes do not clash
    assert(bs != os);
    assert((p2.spec_reserve(bid_mint)->0).1 == q.1);
    assert((p2.spec_reserve(ask_mint)->0).1 == q.2 + fee);
    lemma_swap_invariant_pre_fee(br, ar, amount as int);
    if fee >= 1 {
        lemma_swap_invariant_post_fee(br, ar, amount as int, fee);
    }
}

/// Each payout of a withdrawal is bounded by its reserve: burning any part
/// of the supply can never pay out more than the pool holds.
pub proof fn lemma_withdraw_bounded(p: Pool, lpt: u64, liquidity: u64)
    requires
        p.spec_withdraw(lpt as int, liquidity as int) is Ok,
    ensures
        ({
            let t = p.spec_withdraw(lpt as int, liquidity as int)->Ok_0;
            &&& 0 <= t.0 <= p.reserve_a
            &&& 0 <= t.1 <= p.reserve_b
            &&& t.3 <= p.reserve_a
            &&& t.4 <= p.reserve_b
        }),
{
    lemma_mul_div_le(p.reserve_a as int, liquidity as int - lpt as int, liquidity as int);
    lemma_mul_div_le(p.reserve_b as int, liquidity as int - lpt as int, liquidity as int);
    lemma_mul_is_commutative(p.reserve_a as int, liquidity as int - lpt as int);
    lemma_mul_is_commutative(p.reserve_b as int, liquidity as int - lpt as int);
}

/// Raking commits a pair on the reserve ratio up to integer truncation:
/// the cross products of the committed pair differ by less than one
/// reserve unit on either side, and nothing beyond the offered pair is
/// taken.
pub proof fn lemma_rake_proportional(a: int, b: int, ra: int, rb: int)
    requires
        0 <= a,
        0 <= b,
        1 <= ra,
        1 <= rb,
    ensures
        ({
            let t = spec_rake(a, b, ra, rb);
            &&& 0 <= t.0 <= a
            &&& 0 <= t.1 <= b
            &&& t.0 * rb - t.1 * ra < ra
            &&& t.1 * ra - t.0 * rb < rb
        }),
{
    let l = a * rb;
    let r = b * ra;
    if l > r {
        assert(1 <= a) by (nonlinear_arith)
            requires
                a * rb > b * ra,
                0 <= a,
                0 <= b,
                0 < ra,
        ;
        lemma_fundamental_div_mod(r, rb);
        lemma_mod_bound(r, rb);
        lemma_mul_is_commutative(r / rb, rb);
        vstd::arithmetic::div_mod::lemma_div_pos_is_pos(r, rb);
        assert(r / rb <= a) by {
            vstd::arithmetic::div_mod::lemma_div_is_ordered(r, l, rb);
            vstd::arithmetic::div_mod::lemma_div_multiples_vanish(a, rb);
            lemma_mul_is_commutative(a, rb);
        }
    } else if l < r {
        assert(1 <= b) by (nonlinear_arith)
            requires
                b * ra > a * rb,
                0 <= a,
                0 <= b,
                0 < rb,
        ;
        lemma_fundamental_div_mod(l, ra);
        lemma_mod_bound(l, ra);
        lemma_mul_is_commutative(l / ra, ra);
        vstd::arithmetic::div_mod::lemma_div_pos_is_pos(l, ra);
        assert(l / ra <= b) by {
            vstd::arithmetic::div_mod::lemma_div_is_ordered(l, r, ra);
            vstd::arithmetic::div_mod::lemma_div_multiples_vanish(b, ra);
            lemma_mul_is_commutative(b, ra);
        }
    }
}

} // verus!
