//! Trial-division primality tests.
use vstd::prelude::*;

verus! {

/// Which trial-division algorithm decides primality.
#[derive(Clone, Copy, Debug, PartialEq, Eq, Structural)]
pub enum Variant {
    /// Every divisor in `[2, n)`.
    Naive,
    /// Odd divisors up to the floor of the square root, after ruling out evens.
    Optimized,
}

/// `n` has a divisor `d` with `lo <= d < hi`.
pub open spec fn has_divisor_in(n: int, lo: int, hi: int) -> bool {
    exists|d: int| lo <= d < hi && #[trigger] (n % d) == 0
}

/// `n` has an odd divisor `d >= 3` with `d * d <= n`.
pub open spec fn has_small_odd_divisor(n: int) -> bool {
    exists|d: int| 3 <= d && d % 2 == 1 && d * d <= n && #[trigger] (n % d) == 0
}

/// Primality as the naive test decides it: 1 is not prime, 2 is, and any other `n`
/// is prime when no integer in `[2, n)` divides it.
pub open spec fn naive_prime(n: int) -> bool {
    if n == 1 {
        false
    } else if n == 2 {
        true
    } else {
        !has_divisor_in(n, 2, n)
    }
}

/// Primality as the optimized test decides it: 1 is not prime, 2 is, an even `n > 2`
/// is not, and an odd `n` is prime when no odd `d` in `[3, floor(sqrt(n))]` divides it.
pub open spec fn optimized_prime(n: int) -> bool {
    if n == 1 {
        false
    } else if n == 2 {
        true
    } else if n % 2 == 0 {
        false
    } else {
        !has_small_odd_divisor(n)
    }
}

/// Primality of `n` under the chosen variant.
pub open spec fn prime_by(n: int, v: Variant) -> bool {
    match v {
        Variant::Naive => naive_prime(n),
        Variant::Optimized => optimized_prime(n),
    }
}

/// Decides primality by trial division over every `d` in `[2, num)`.
pub fn basic_is_prime(num: u32) -> (r: bool)
    requires
        num >= 1,
    ensures
        r == naive_prime(num as int),
{
    if num == 1 {
        return false;
    }
    if num == 2 {
        return true;
    }
    let mut i: u32 = 2;
    while i < num
        invariant
            2 <= i <= num,
            num > 2,
            forall|d: int| 2 <= d < i ==> #[trigger] ((num as int) % d) != 0,
        decreases num - i,
    {
        if num % i == 0 {
            return false;
        }
        i = i + 1;
    }
    true
}

/// Decides primality by ruling out even numbers above 2, then dividing by the odd
/// `d` with `3 <= d` and `d * d <= num`.
pub fn complex_is_prime(num: u32) -> (r: bool)
    requires
        num >= 1,
    ensures
        r == optimized_prime(num as int),
{
    if num == 1 {
        return false;
    }
    if num == 2 {
        return true;
    }
    if num > 2 && num % 2 == 0 {
        return false;
    }
    let n: u64 = num as u64;
    let mut i: u64 = 3;
    while i <= n / i
        invariant
            3 <= i <= 65537,
            i % 2 == 1,
            n == num as u64,
            n % 2 == 1,
            n <= u32::MAX,
            forall|d: int|
                3 <= d < i && d % 2 == 1 ==> #[trigger] ((n as int) % d) != 0,
        decreases 65537 - i,
    {
        assert(i * i <= n) by (nonlinear_arith)
            requires
                i <= n / i,
                i > 0,
        ;
        if n % i == 0 {
            assert((n as int) % (i as int) == 0);
            return false;
        }
        assert(i <= 65535) by (nonlinear_arith)
            requires
                i * i <= n,
                n <= u32::MAX,
                i % 2 == 1,
        ;
        i = i + 2;
    }
    assert forall|d: int|
        3 <= d && d % 2 == 1 && d * d <= n implies #[trigger] ((n as int) % d) != 0 by {
        if d >= i {
            assert(d * d > n) by (nonlinear_arith)
                requires
                    d >= i,
                    i > n / i,
                    i > 0,
            ;
        }
    }
    true
}

/// For every `n >= 1` the two trial-division tests agree.
pub proof fn naive_and_optimized_agree(n: int)
    requires
        n >= 1,
    ensures
        naive_prime(n) == optimized_prime(n),
{
    if n > 2 {
        if n % 2 == 0 {
            assert(n % 2 == 0);
            assert(has_divisor_in(n, 2, n));
        } else {
            if has_divisor_in(n, 2, n) {
                let d = choose|d: int| 2 <= d < n && #[trigger] (n % d) == 0;
                lemma_small_cofactor(n, d);
            }
            if has_small_odd_divisor(n) {
                let d = choose|d: int|
                    3 <= d && d % 2 == 1 && d * d <= n && #[trigger] (n % d) == 0;
                assert(d < n) by (nonlinear_arith)
                    requires
                        3 <= d,
                        d * d <= n,
                ;
                assert(2 <= d < n && n % d == 0);
            }
        }
    }
}

/// An odd `n` with a divisor in `[2, n)` has an odd divisor at most its square root.
proof fn lemma_small_cofactor(n: int, d: int)
    requires
        n > 2,
        n % 2 == 1,
        2 <= d < n,
        n % d == 0,
    ensures
        has_small_odd_divisor(n),
{
    let e = n / d;
    assert(n == d * e) by (nonlinear_arith)
        requires
            n % d == 0,
            d > 0,
            e == n / d,
    ;
    assert(e >= 2) by (nonlinear_arith)
        requires
            n == d * e,
            d < n,
            d >= 2,
    ;
    lemma_odd_factor(n, d, e);
    assert(n == e * d) by (nonlinear_arith)
        requires
            n == d * e,
    ;
    lemma_odd_factor(n, e, d);
    assert(n % e == 0) by (nonlinear_arith)
        requires
            n == d * e,
            e > 0,
    ;
    let m = if d <= e { d } else { e };
    assert(m * m <= n) by (nonlinear_arith)
        requires
            n == d * e,
            m == d || m == e,
            m <= d,
            m <= e,
            m >= 2,
    ;
    assert(n % m == 0);
}

/// A factor of an odd number is odd.
proof fn lemma_odd_factor(n: int, a: int, b: int)
    requires
        n == a * b,
        n % 2 == 1,
    ensures
        a % 2 == 1,
{
    if a % 2 == 0 {
        let k = a / 2;
        assert(n == 2 * (k * b)) by (nonlinear_arith)
            requires
                n == a * b,
                a == 2 * k,
        ;
    }
}

} // verus!
