//! Small arithmetic lemmas used by the geometry computations.

use vstd::prelude::*;

verus! {

/// Multiplication is monotone in both nonnegative factors.
pub proof fn lemma_mul_le(a: int, b: int, c: int, d: int)
    requires
        0 <= a <= c,
        0 <= b <= d,
    ensures
        a * b <= c * d,
{
    assert(a * b <= c * d) by (nonlinear_arith)
        requires
            0 <= a <= c,
            0 <= b <= d,
    ;
}

/// A product of nonnegative factors is at least either factor when the other
/// one is at least one.
pub proof fn lemma_mul_lower(a: int, b: int)
    requires
        0 <= a,
        1 <= b,
    ensures
        a <= a * b,
{
    assert(a <= a * b) by (nonlinear_arith)
        requires
            0 <= a,
            1 <= b,
    ;
}

/// A product of positive factors is positive.
pub proof fn lemma_mul_pos(a: int, b: int)
    requires
        1 <= a,
        1 <= b,
    ensures
        1 <= a * b,
{
    assert(1 <= a * b) by (nonlinear_arith)
        requires
            1 <= a,
            1 <= b,
    ;
}

/// Multiplication is commutative. Stated as a lemma because the solver runs
/// with nonlinear reasoning off.
pub proof fn lemma_mul_comm(a: int, b: int)
    ensures
        a * b == b * a,
{
    assert(a * b == b * a) by (nonlinear_arith);
}

/// Multiplication distributes over subtraction of one.
pub proof fn lemma_mul_sub_one(a: int, b: int)
    ensures
        a * (b - 1) == a * b - a,
{
    assert(a * (b - 1) == a * b - a) by (nonlinear_arith);
}

/// Dividing a nonnegative value by a larger positive divisor gives a smaller
/// or equal quotient.
pub proof fn lemma_div_le_div(x: int, a: int, b: int)
    requires
        0 <= x,
        0 < a <= b,
    ensures
        x / b <= x / a,
{
    vstd::arithmetic::div_mod::lemma_div_is_ordered_by_denominator(x, a, b);
}

/// Scaling by a factor and dividing by the same factor gives the value back.
pub proof fn lemma_mul_div_cancel(x: int, a: int)
    requires
        0 < a,
    ensures
        (x * a) / a == x,
{
    vstd::arithmetic::div_mod::lemma_div_multiples_vanish(x, a);
    assert(a * x == x * a) by (nonlinear_arith);
}

/// The quotient scaled by the divisor stays below the dividend.
pub proof fn lemma_div_mul_le(n: int, d: int)
    requires
        0 <= n,
        0 < d,
    ensures
        (n / d) * d <= n,
        0 <= n / d,
{
    vstd::arithmetic::div_mod::lemma_fundamental_div_mod(n, d);
    vstd::arithmetic::div_mod::lemma_div_pos_is_pos(n, d);
    assert(d * (n / d) == (n / d) * d) by (nonlinear_arith);
    vstd::arithmetic::div_mod::lemma_mod_bound(n, d);
}

} // verus!
