//! Elementary arithmetic on machine integers.

use vstd::arithmetic::power::{lemma_pow0, lemma_pow_increases, lemma_pow_positive, pow};
use vstd::prelude::*;

verus! {

/// The sum of two sizes. The caller keeps the sum within `usize`.
pub fn add(left: usize, right: usize) -> (sum: usize)
    requires
        left + right <= usize::MAX,
    ensures
        sum == left + right,
{
    left + right
}

/// Twice `n`. The caller keeps the result within `i32`.
pub fn double(n: i32) -> (twice: i32)
    requires
        i32::MIN <= n * 2 <= i32::MAX,
    ensures
        twice == n * 2,
{
    n * 2
}

/// What `do_math` computes: `i + 1`, multiplied ten times by `i`.
pub open spec fn math_of(i: int) -> int {
    (i + 1) * pow(i, 10)
}

/// Starts from `i + 1` and multiplies ten times by `i`. The caller keeps the
/// result within `u32`.
pub fn do_math(i: u32) -> (n: u32)
    requires
        math_of(i as int) <= u32::MAX,
    ensures
        n == math_of(i as int),
{
    proof {
        lemma_pow0(i as int);
        if i > 0 {
            lemma_pow_positive(i as int, 10);
            assert(i + 1 <= (i + 1) * pow(i as int, 10)) by (nonlinear_arith)
                requires
                    pow(i as int, 10) >= 1,
                    i >= 0,
            ;
        }
    }
    let mut n: u32 = i + 1;
    let mut round: u32 = 0;
    while round < 10
        invariant
            round <= 10,
            n == (i + 1) * pow(i as int, round as nat),
            math_of(i as int) <= u32::MAX,
        decreases 10 - round,
    {
        proof {
            let next = pow(i as int, (round + 1) as nat);
            assert(next == i * pow(i as int, round as nat)) by {
                reveal(pow);
                assert(((round + 1) as nat - 1) as nat == round as nat);
            }
            assert(n * i == (i + 1) * next) by (nonlinear_arith)
                requires
                    n == (i + 1) * pow(i as int, round as nat),
                    next == i * pow(i as int, round as nat),
            ;
            if i > 0 {
                lemma_pow_increases(i as nat, (round + 1) as nat, 10);
                assert((i + 1) * next <= (i + 1) * pow(i as int, 10)) by (nonlinear_arith)
                    requires
                        next <= pow(i as int, 10),
                        i >= 0,
                ;
            } else {
                assert((i + 1) * next == 0) by (nonlinear_arith)
                    requires
                        next == i * pow(i as int, round as nat),
                        i == 0,
                ;
            }
            assert(0 <= n * i) by (nonlinear_arith)
                requires
                    n >= 0,
                    i >= 0,
            ;
        }
        n = n * i;
        round = round + 1;
    }
    n
}

} // verus!
