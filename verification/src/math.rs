use vstd::arithmetic::div_mod::{
    lemma_div_is_ordered, lemma_div_is_ordered_by_denominator, lemma_div_multiples_vanish,
    lemma_div_pos_is_pos, lemma_fundamental_div_mod, lemma_mod_bound,
};
use vstd::arithmetic::mul::{
    lemma_mul_inequality, lemma_mul_is_commutative, lemma_mul_is_distributive_sub,
    lemma_mul_nonnegative, lemma_mul_upper_bound,
};
use vstd::prelude::*;

verus! {

/// Fixed-point scale for fee and tax ratios: 10^18.
pub const PRECISION: u64 = 1_000_000_000_000_000_000;

/// `r` is the floor square root of `n`.
pub open spec fn is_sqrt(n: int, r: int) -> bool {
    &&& 0 <= r
    &&& r * r <= n
    &&& n < (r + 1) * (r + 1)
}

/// The floor square root, as a spec-level function.
pub open spec fn isqrt(n: int) -> int {
    choose|r: int| is_sqrt(n, r)
}

/// Floor square roots are unique.
pub proof fn lemma_sqrt_unique(n: int, a: int, b: int) by (nonlinear_arith)
    requires
        0 <= a,
        a * a <= n,
        n < (a + 1) * (a + 1),
        0 <= b,
        b * b <= n,
        n < (b + 1) * (b + 1),
    ensures
        a == b,
{
}

/// A witness of `is_sqrt` is what `isqrt` denotes.
pub proof fn lemma_isqrt_of(n: int, r: int)
    requires
        is_sqrt(n, r),
    ensures
        isqrt(n) == r,
{
    assert(exists|x: int| is_sqrt(n, x)) by {
        assert(is_sqrt(n, r));
    }
    let w = isqrt(n);
    assert(is_sqrt(n, w));
    lemma_sqrt_unique(n, r, w);
}

/// The floor square root never exceeds a bound whose square exceeds `n`.
pub proof fn lemma_sqrt_le(n: int, r: int, b: int) by (nonlinear_arith)
    requires
        0 <= r,
        r * r <= n,
        0 <= b,
        n < (b + 1) * (b + 1),
    ensures
        r <= b,
{
}

/// Scaling by a fraction no greater than one can only shrink a value:
/// for `0 <= n <= d`, `a * n / d` stays between 0 and `a`.
pub proof fn lemma_mul_div_le(a: int, n: int, d: int)
    requires
        0 <= a,
        0 <= n <= d,
        0 < d,
    ensures
        0 <= a * n / d <= a,
{
    lemma_mul_inequality(n, d, a);
    lemma_mul_is_commutative(n, a);
    lemma_mul_is_commutative(d, a);
    lemma_div_is_ordered(a * n, a * d, d);
    lemma_mul_is_commutative(a, d);
    lemma_div_multiples_vanish(a, d);
    lemma_mul_nonnegative(a, n);
    lemma_div_pos_is_pos(a * n, d);
}

/// Dividing a non-negative value by a positive divisor never grows it.
pub proof fn lemma_div_le_self(x: int, d: int)
    requires
        0 <= x,
        1 <= d,
    ensures
        0 <= x / d <= x,
{
    lemma_div_is_ordered_by_denominator(x, 1, d);
    lemma_div_pos_is_pos(x, d);
}

/// One Newton step never drops below a square root candidate: whenever `y`
/// is at least `n / x` (stated without division as `x * (y + 1) > n`), the
/// average of `x` and `y` stays at or above every `s` with `s * s <= n`.
proof fn lemma_newton_step_bound(n: int, x: int, y: int, s: int) by (nonlinear_arith)
    requires
        1 <= x,
        0 <= y,
        0 <= s,
        s * s <= n,
        x * (y + 1) > n,
    ensures
        x + y >= 2 * s,
{
}

/// A quotient at least as large as its divisor certifies `e * e <= n`.
proof fn lemma_divisor_below_quotient(n: int, e: int)
    requires
        0 <= n,
        1 <= e,
        e <= n / e,
    ensures
        e * e <= n,
{
    lemma_fundamental_div_mod(n, e);
    lemma_mod_bound(n, e);
    lemma_mul_inequality(e, n / e, e);
    lemma_mul_is_commutative(n / e, e);
}

/// A quotient strictly below its divisor certifies `n < e * e`.
proof fn lemma_divisor_above_quotient(n: int, e: int)
    requires
        0 <= n,
        1 <= e,
        n / e < e,
    ensures
        n < e * e,
{
    lemma_fundamental_div_mod(n, e);
    lemma_mod_bound(n, e);
    lemma_mul_inequality(n / e, e - 1, e);
    lemma_mul_is_commutative(n / e, e);
    lemma_mul_is_commutative(e - 1, e);
    lemma_mul_is_distributive_sub(e, e, 1);
}

/// Floor square root of a product of two 64-bit values; fits in 64 bits.
pub(crate) fn sqrt_u64_product(a: u64, b: u64) -> (r: u64)
    ensures
        r as int == isqrt(a as int * b as int),
{
    proof {
        lemma_mul_upper_bound(a as int, 0xffff_ffff_ffff_ffff, b as int, 0xffff_ffff_ffff_ffff);
    }
    let p: u128 = (a as u128) * (b as u128);
    let r128: u128 = p.sqrt();
    proof {
        assert((0xffff_ffff_ffff_ffff * 0xffff_ffff_ffff_ffff) < (0xffff_ffff_ffff_ffff + 1) * (
        0xffff_ffff_ffff_ffff + 1)) by (nonlinear_arith);
        lemma_sqrt_le(p as int, r128 as int, 0xffff_ffff_ffff_ffff);
    }
    r128 as u64
}

/// Integer square root over a 128-bit unsigned domain.
pub trait Roots {
    /// The exact floor square root; total over the whole domain.
    fn sqrt(self) -> Self;
}

impl Roots for u128 {
    /// Babylonian iteration seeded with a power of two, converging in
    /// `O(log log n)` steps; bit-exact for every input, including 0, 1 and
    /// the maximum representable value.
    fn sqrt(self) -> (r: u128)
        ensures
            is_sqrt(self as int, r as int),
            r as int == isqrt(self as int),
    {
        let n = self;
        if n < 2 {
            proof {
                if n == 0 {
                    assert(is_sqrt(0, 0));
                } else {
                    assert(is_sqrt(1, 1));
                }
                lemma_isqrt_of(n as int, n as int);
            }
            return n;
        }
        // Seed: the smallest power of two whose square exceeds n.
        let mut end: u128 = 1;
        while end <= n / end
            invariant
                2 <= n,
                1 <= end,
                end <= 0xffff_ffff_ffff_ffff_ffff,
            decreases n - end,
        {
            proof {
                lemma_divisor_below_quotient(n as int, end as int);
                assert(end <= 0xffff_ffff_ffff_ffff) by (nonlinear_arith)
                    requires
                        end as int * end as int <= n as int,
                        n <= u128::MAX,
                        0 <= end,
                ;
            }
            let ghost e0: int = end as int;
            end = end * 2;
            proof {
                assert(end <= n) by (nonlinear_arith)
                    requires
                        2 <= n,
                        1 <= e0,
                        e0 * e0 <= n as int,
                        end == 2 * e0,
                ;
            }
        }
        proof {
            lemma_divisor_above_quotient(n as int, end as int);
            assert(n < (end as int + 1) * (end as int + 1)) by (nonlinear_arith)
                requires
                    (n as int) < (end as int) * (end as int),
                    0 <= end as int,
            ;
        }
        let mut start: u128 = n / end;
        while start < end
            invariant
                2 <= n,
                1 <= end,
                end <= 0xffff_ffff_ffff_ffff_ffff,
                n < (end as int + 1) * (end as int + 1),
                start == n as int / end as int,
            decreases end,
        {
            let ghost e0: int = end as int;
            let ghost s0: int = start as int;
            proof {
                // start stays close to end, so the sum below cannot overflow
                assert(n as int <= e0 * (e0 + 2)) by (nonlinear_arith)
                    requires
                        (n as int) < (e0 + 1) * (e0 + 1),
                ;
                lemma_div_is_ordered(n as int, e0 * (e0 + 2), e0);
                lemma_div_multiples_vanish(e0 + 2, e0);
                lemma_mul_is_commutative(e0, e0 + 2);
                assert(s0 <= e0 + 2);
            }
            end = (start + end) / 2;
            proof {
                lemma_fundamental_div_mod(n as int, e0);
                lemma_mod_bound(n as int, e0);
                assert(e0 * (s0 + 1) > n as int) by (nonlinear_arith)
                    requires
                        n as int == e0 * s0 + n as int % e0,
                        n as int % e0 < e0,
                ;
                if n as int >= (end as int + 1) * (end as int + 1) {
                    lemma_newton_step_bound(n as int, e0, s0, end as int + 1);
                    lemma_div_is_ordered(2 * (end as int + 1), s0 + e0, 2);
                    lemma_div_multiples_vanish(end as int + 1, 2);
                    assert(false);
                }
                assert(1 <= end) by (nonlinear_arith)
                    requires
                        2 <= n,
                        0 <= end,
                        (n as int) < (end as int + 1) * (end as int + 1),
                ;
            }
            start = n / end;
        }
        proof {
            lemma_divisor_below_quotient(n as int, end as int);
            lemma_isqrt_of(n as int, end as int);
        }
        end
    }
}

} // verus!
