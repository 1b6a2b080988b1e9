//! Truncated signed division, the semantics of Rust's `/` on signed
//! integers. Verus's spec-level `/` is Euclidean division, which differs on
//! negative operands, so the reward formulas are stated over `trunc_div`.

use vstd::arithmetic::div_mod::{
    lemma_div_nonincreasing, lemma_div_pos_is_pos, lemma_fundamental_div_mod,
};
use vstd::prelude::*;

verus! {

/// Round-toward-zero division: what `a / b` computes on Rust's signed
/// integer types, expressed with Euclidean division on magnitudes.
pub open spec fn trunc_div(a: int, b: int) -> int
    recommends
        b != 0,
{
    if a == 0 {
        0
    } else if a > 0 && b > 0 {
        a / b
    } else if a < 0 && b < 0 {
        (a * -1) / (b * -1)
    } else if a < 0 {
        ((a * -1) / b) * -1
    } else {
        (a / (b * -1)) * -1
    }
}

/// The quotient's magnitude never exceeds the dividend's, so every truncated
/// quotient of `i128` values fits in `i128` except `i128::MIN / -1`.
pub proof fn lemma_trunc_div_in_range(a: int, b: int)
    requires
        b != 0,
        i128::MIN <= a <= i128::MAX,
        i128::MIN <= b <= i128::MAX,
        !(a == i128::MIN && b == -1),
    ensures
        i128::MIN <= trunc_div(a, b) <= i128::MAX,
{
    if a == 0 {
    } else if a > 0 && b > 0 {
        lemma_div_pos_is_pos(a, b);
        lemma_div_nonincreasing(a, b);
    } else if a < 0 && b < 0 {
        let x = a * -1;
        let d = b * -1;
        lemma_div_pos_is_pos(x, d);
        if d == 1 {
            lemma_div_nonincreasing(x, d);
        } else {
            lemma_fundamental_div_mod(x, d);
            assert(x / d <= i128::MAX) by (nonlinear_arith)
                requires
                    d >= 2,
                    x == d * (x / d) + x % d,
                    0 <= x % d,
                    0 <= x / d,
                    x <= i128::MAX + 1,
            {
            }
        }
    } else if a < 0 {
        let x = a * -1;
        lemma_div_pos_is_pos(x, b);
        lemma_div_nonincreasing(x, b);
    } else {
        let d = b * -1;
        lemma_div_pos_is_pos(a, d);
        lemma_div_nonincreasing(a, d);
    }
}

/// Truncated division on nonnegative operands is the plain Euclidean
/// quotient, hence itself nonnegative.
pub proof fn lemma_trunc_div_nonneg(a: int, b: int)
    requires
        0 <= a,
        0 < b,
    ensures
        trunc_div(a, b) == a / b,
        0 <= trunc_div(a, b),
{
    lemma_div_pos_is_pos(a, b);
}

/// Executable truncated division on `i128`, proved against `trunc_div`.
pub fn div_i128(a: i128, b: i128) -> (r: i128)
    requires
        b != 0,
        !(a == i128::MIN && b == -1),
    ensures
        r == trunc_div(a as int, b as int),
{
    match a.checked_div(b) {
        Some(q) => q,
        None => {
            proof {
                lemma_trunc_div_in_range(a as int, b as int);
            }
            0
        },
    }
}

} // verus!
