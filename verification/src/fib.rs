//! Fibonacci numbers by fast doubling.
//!
//! From the pair `(F(k), F(k + 1))` two multiplications give
//! `F(2k) = F(k) * (2 * F(k + 1) - F(k))` and `F(2k + 1) = F(k)^2 + F(k + 1)^2`,
//! so the number at position `n` takes about `log2(n)` steps.

use vstd::prelude::*;

verus! {

/// The Fibonacci number at position `n`: 0, 1, 1, 2, 3, 5, ...
pub open spec fn fibonacci(n: nat) -> nat
    decreases n,
{
    if n < 2 {
        n
    } else {
        fibonacci((n - 1) as nat) + fibonacci((n - 2) as nat)
    }
}

/// The last position whose successor still fits in 64 bits. [`fib`] returns
/// a number and its successor, so this is the last position it takes.
pub const LAST_POSITION: u64 = 92;

/// A later Fibonacci number is no smaller.
pub proof fn lemma_fibonacci_grows(i: nat, j: nat)
    requires
        i <= j,
    ensures
        fibonacci(i) <= fibonacci(j),
    decreases j,
{
    if i < j {
        lemma_fibonacci_grows(i, (j - 1) as nat);
        if j >= 2 {
            assert(fibonacci(j) == fibonacci((j - 1) as nat) + fibonacci((j - 2) as nat));
        }
    }
}

/// The addition law: `F(m + n + 1) = F(m + 1) * F(n + 1) + F(m) * F(n)`.
pub proof fn lemma_fibonacci_addition(m: nat, n: nat)
    ensures
        fibonacci(m + n + 1) == fibonacci(m + 1) * fibonacci(n + 1) + fibonacci(m) * fibonacci(n),
    decreases n,
{
    let a = fibonacci(m);
    let b = fibonacci(m + 1);
    if n == 0 {
        assert(fibonacci(1) == 1);
        assert(fibonacci(0) == 0);
        assert(b * 1 + a * 0 == b) by (nonlinear_arith);
    } else if n == 1 {
        assert(fibonacci(2) == 1) by {
            reveal_with_fuel(fibonacci, 3);
        }
        assert(fibonacci(1) == 1);
        assert(fibonacci(m + 2) == b + a);
        assert(b * 1 + a * 1 == b + a) by (nonlinear_arith);
    } else {
        lemma_fibonacci_addition(m, (n - 1) as nat);
        lemma_fibonacci_addition(m, (n - 2) as nat);
        let x = fibonacci(n);
        let y = fibonacci((n - 1) as nat);
        let z = fibonacci((n - 2) as nat);
        assert(fibonacci(n + 1) == x + y);
        assert(x == y + z);
        assert(fibonacci(m + n + 1) == fibonacci(m + n) + fibonacci((m + n - 1) as nat));
        assert(fibonacci(m + n) == b * x + a * y);
        assert(fibonacci((m + n - 1) as nat) == b * y + a * z);
        assert(b * (x + y) + a * (y + z) == (b * x + a * y) + (b * y + a * z))
            by (nonlinear_arith);
    }
}

/// The doubling laws: `F(2k) = F(k) * (2 * F(k + 1) - F(k))` and
/// `F(2k + 1) = F(k)^2 + F(k + 1)^2`.
pub proof fn lemma_fibonacci_doubling(k: nat)
    ensures
        fibonacci(k) <= fibonacci(k + 1),
        fibonacci(2 * k) == fibonacci(k) * (2 * fibonacci(k + 1) - fibonacci(k)),
        fibonacci(2 * k + 1) == fibonacci(k) * fibonacci(k) + fibonacci(k + 1) * fibonacci(k + 1),
{
    let a = fibonacci(k);
    let b = fibonacci(k + 1);
    lemma_fibonacci_grows(k, k + 1);
    lemma_fibonacci_addition(k, k);
    assert(b * b + a * a == a * a + b * b);
    if k == 0 {
        assert(a * (2 * b - a) == 0) by (nonlinear_arith)
            requires
                a == 0,
        ;
    } else {
        let p = fibonacci((k - 1) as nat);
        lemma_fibonacci_addition((k - 1) as nat, k);
        assert(b == a + p);
        assert(fibonacci(2 * k) == a * b + p * a);
        assert(a * b + p * a == a * (2 * b - a)) by (nonlinear_arith)
            requires
                b == a + p,
        ;
    }
}

/// `F(93)` is 12200160415121876738, which fits in 64 bits.
pub proof fn lemma_fibonacci_93()
    ensures
        fibonacci(93) == 12200160415121876738,
        fibonacci(93) <= u64::MAX,
{
    assert(fibonacci(11) == 89 && fibonacci(12) == 144 && fibonacci(13) == 233) by {
        reveal_with_fuel(fibonacci, 14);
    }
    lemma_fibonacci_doubling(11);
    lemma_fibonacci_doubling(12);
    assert(fibonacci(23) == 28657);
    assert(fibonacci(24) == 46368);
    assert(fibonacci(25) == 75025);
    lemma_fibonacci_doubling(23);
    lemma_fibonacci_doubling(24);
    assert(fibonacci(46) == 1836311903);
    assert(fibonacci(47) == 2971215073);
    lemma_fibonacci_doubling(46);
}

/// The Fibonacci numbers up to position 93 fit in 64 bits.
pub proof fn lemma_fibonacci_fits(n: nat)
    requires
        n <= 93,
    ensures
        fibonacci(n) <= u64::MAX,
{
    lemma_fibonacci_93();
    lemma_fibonacci_grows(n, 93);
}

/// The Fibonacci number at position `nth`.
pub fn calculate(nth: u64) -> (value: u64)
    requires
        nth <= LAST_POSITION,
    ensures
        value == fibonacci(nth as nat),
{
    fib(nth).0
}

/// The Fibonacci numbers at positions `n` and `n + 1`, by fast doubling.
pub fn fib(n: u64) -> (pair: (u64, u64))
    requires
        n <= LAST_POSITION,
    ensures
        pair.0 == fibonacci(n as nat),
        pair.1 == fibonacci((n + 1) as nat),
    decreases n,
{
    if n == 0 {
        (0, 1)
    } else {
        let (a, b) = fib(n / 2);
        proof {
            let k = (n / 2) as nat;
            lemma_fibonacci_doubling(k);
            lemma_fibonacci_fits(2 * k);
            lemma_fibonacci_fits(2 * k + 1);
            lemma_fibonacci_fits(k + 3);
            assert(fibonacci(k + 3) == fibonacci(k + 2) + fibonacci(k + 1));
            assert(fibonacci(k + 2) == fibonacci(k + 1) + fibonacci(k));
            assert(a * a <= a * a + b * b) by (nonlinear_arith);
            if n % 2 == 1 {
                lemma_fibonacci_fits(2 * k + 2);
                assert(fibonacci(2 * k + 2) == fibonacci(2 * k + 1) + fibonacci(2 * k));
            }
        }
        let c = a * ((b * 2) - a);
        let d = a * a + b * b;
        if n % 2 == 0 {
            (c, d)
        } else {
            (d, c + d)
        }
    }
}

} // verus!
