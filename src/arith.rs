//! Fixed-point helpers: floor division and the bounds that averages keep.
use vstd::prelude::*;
use vstd::arithmetic::div_mod::{lemma_div_is_ordered, lemma_fundamental_div_mod_converse, lemma_fundamental_div_mod};

verus! {

/// `a / d` rounded toward negative infinity.
pub fn floor_div(a: i64, d: i64) -> (q: i64)
    requires
        d > 0,
    ensures
        q == a / d,
{
    if a >= 0 {
        let q = a / d;
        proof {
            lemma_fundamental_div_mod(a as int, d as int);
        }
        q
    } else {
        let b: i64 = -(a + 1);
        let qb = b / d;
        let rb = b % d;
        proof {
            lemma_fundamental_div_mod(b as int, d as int);
            assert(a == (-qb - 1) * d + (d - rb - 1)) by (nonlinear_arith)
                requires
                    b == d * qb + rb,
                    a == -b - 1,
            ;
            lemma_fundamental_div_mod_converse(a as int, d as int, -qb - 1, d - rb - 1);
        }
        -qb - 1
    }
}

/// `n * v / n == v`.
pub proof fn lemma_mul_div_cancel(v: int, n: int)
    requires
        n > 0,
    ensures
        (v * n) / n == v,
{
    lemma_fundamental_div_mod_converse(v * n, n, v, 0);
}

/// A quotient of a value between `lo * n` and `hi * n` lies between `lo` and `hi`.
pub proof fn lemma_div_between(a: int, n: int, lo: int, hi: int)
    requires
        n > 0,
        lo * n <= a <= hi * n,
    ensures
        lo <= a / n <= hi,
{
    lemma_div_is_ordered(lo * n, a, n);
    lemma_div_is_ordered(a, hi * n, n);
    lemma_mul_div_cancel(lo, n);
    lemma_mul_div_cancel(hi, n);
}

/// Dividing a non-negative value by a positive one never makes it larger.
pub proof fn lemma_div_shrinks(a: int, b: int)
    requires
        a >= 0,
        b >= 1,
    ensures
        0 <= a / b <= a,
{
    assert(0 * b <= a <= a * b) by (nonlinear_arith)
        requires
            a >= 0,
            b >= 1,
    ;
    lemma_div_between(a, b, 0, a);
}

/// A step of `d * k / m` toward a target `d` away, with `0 < k <= m`, never overshoots it.
pub proof fn lemma_partial_step(d: int, k: int, m: int)
    requires
        0 < k <= m,
    ensures
        d >= 0 ==> 0 <= (d * k) / m <= d,
        d < 0 ==> d <= (d * k) / m <= 0,
{
    if d >= 0 {
        assert(0 * m <= d * k <= d * m) by (nonlinear_arith)
            requires
                d >= 0,
                0 < k <= m,
        ;
        lemma_div_between(d * k, m, 0, d);
    } else {
        assert(d * m <= d * k <= 0 * m) by (nonlinear_arith)
            requires
                d < 0,
                0 < k <= m,
        ;
        lemma_div_between(d * k, m, d, 0);
    }
}

} // verus!
