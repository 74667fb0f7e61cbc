//! Factorials, as the series for sine and cosine need them.

use vstd::prelude::*;

verus! {

/// The product of the whole numbers from 1 to `n`.
pub open spec fn factorial_of(n: nat) -> nat
    decreases n,
{
    if n == 0 {
        1
    } else {
        n * factorial_of((n - 1) as nat)
    }
}

/// The factorials that are values of `i32`.
pub proof fn lemma_factorials()
    ensures
        factorial_of(0) == 1,
        factorial_of(1) == 1,
        factorial_of(2) == 2,
        factorial_of(3) == 6,
        factorial_of(4) == 24,
        factorial_of(5) == 120,
        factorial_of(6) == 720,
        factorial_of(7) == 5040,
        factorial_of(8) == 40320,
        factorial_of(9) == 362880,
        factorial_of(10) == 3628800,
        factorial_of(11) == 39916800,
        factorial_of(12) == 479001600,
        factorial_of(13) > i32::MAX,
{
    assert(factorial_of(0) == 1);
    assert(factorial_of(1) == 1 * factorial_of(0));
    assert(factorial_of(2) == 2 * factorial_of(1));
    assert(factorial_of(3) == 3 * factorial_of(2));
    assert(factorial_of(4) == 4 * factorial_of(3));
    assert(factorial_of(5) == 5 * factorial_of(4));
    assert(factorial_of(6) == 6 * factorial_of(5));
    assert(factorial_of(7) == 7 * factorial_of(6));
    assert(factorial_of(8) == 8 * factorial_of(7));
    assert(factorial_of(9) == 9 * factorial_of(8));
    assert(factorial_of(10) == 10 * factorial_of(9));
    assert(factorial_of(11) == 11 * factorial_of(10));
    assert(factorial_of(12) == 12 * factorial_of(11));
    assert(factorial_of(13) == 13 * factorial_of(12));
}

/// The factorial of `num`, which must be one that is a value of `i32`.
pub fn factorial(num: i32) -> (res: i32)
    requires
        0 <= num <= 12,
    ensures
        res == factorial_of(num as nat),
{
    proof {
        lemma_factorials();
    }
    let mut product: i32 = 1;
    let mut i: i32 = 0;
    while i < num
        invariant
            0 <= i <= num <= 12,
            product == factorial_of(i as nat),
            factorial_of(0) == 1,
            factorial_of(1) == 1,
            factorial_of(2) == 2,
            factorial_of(3) == 6,
            factorial_of(4) == 24,
            factorial_of(5) == 120,
            factorial_of(6) == 720,
            factorial_of(7) == 5040,
            factorial_of(8) == 40320,
            factorial_of(9) == 362880,
            factorial_of(10) == 3628800,
            factorial_of(11) == 39916800,
            factorial_of(12) == 479001600,
        decreases num - i,
    {
        proof {
            if i == 0 {
                assert(product == factorial_of(0));
                assert(product * (i + 1) == factorial_of(1));
            }
            if i == 1 {
                assert(product == factorial_of(1));
                assert(product * (i + 1) == factorial_of(2));
            }
            if i == 2 {
                assert(product == factorial_of(2));
                assert(product * (i + 1) == factorial_of(3));
            }
            if i == 3 {
                assert(product == factorial_of(3));
                assert(product * (i + 1) == factorial_of(4));
            }
            if i == 4 {
                assert(product == factorial_of(4));
                assert(product * (i + 1) == factorial_of(5));
            }
            if i == 5 {
                assert(product == factorial_of(5));
                assert(product * (i + 1) == factorial_of(6));
            }
            if i == 6 {
                assert(product == factorial_of(6));
                assert(product * (i + 1) == factorial_of(7));
            }
            if i == 7 {
                assert(product == factorial_of(7));
                assert(product * (i + 1) == factorial_of(8));
            }
            if i == 8 {
                assert(product == factorial_of(8));
                assert(product * (i + 1) == factorial_of(9));
            }
            if i == 9 {
                assert(product == factorial_of(9));
                assert(product * (i + 1) == factorial_of(10));
            }
            if i == 10 {
                assert(product == factorial_of(10));
                assert(product * (i + 1) == factorial_of(11));
            }
            if i == 11 {
                assert(product == factorial_of(11));
                assert(product * (i + 1) == factorial_of(12));
            }
            assert(product * (i + 1) == factorial_of((i + 1) as nat));
        }
        i = i + 1;
        product = product * i;
    }
    product
}

/// The factorial of `num`, or `None` where it is no value of `i32` or
/// `num` is negative.
pub fn checked_factorial(num: i32) -> (res: Option<i32>)
    ensures
        0 <= num <= 12 ==> res == Some(factorial_of(num as nat) as i32),
        !(0 <= num <= 12) ==> res is None,
{
    if 0 <= num && num <= 12 {
        Some(factorial(num))
    } else {
        None
    }
}

} // verus!
