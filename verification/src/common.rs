//! Counting helpers: powers, factorials and parities.

use vstd::arithmetic::power::{lemma0_pow, lemma_pow0, lemma_pow1, lemma_pow_adds, lemma_pow_increases};
use vstd::prelude::*;

verus! {

/// The product `1 * 2 * ... * n`.
pub open spec fn factorial_of(n: nat) -> nat
    decreases n,
{
    if n == 0 {
        1
    } else {
        n * factorial_of((n - 1) as nat)
    }
}

/// The number of ways to pick `k` of `n` things, as a quotient of factorials.
pub open spec fn binomial_of(n: nat, k: nat) -> nat
    recommends
        k <= n,
{
    factorial_of(n) / (factorial_of(k) * factorial_of((n - k) as nat))
}

/// A factorial is at least one, and factorials do not decrease.
pub proof fn lemma_factorial_increases(m: nat, n: nat)
    requires
        m <= n,
    ensures
        1 <= factorial_of(m) <= factorial_of(n),
    decreases n,
{
    if n == 0 {
    } else if m == n {
        lemma_factorial_increases((n - 1) as nat, (n - 1) as nat);
        let f = factorial_of((n - 1) as nat);
        assert(n * f >= 1) by (nonlinear_arith)
            requires
                n >= 1,
                f >= 1,
        ;
    } else {
        lemma_factorial_increases(m, (n - 1) as nat);
        let f = factorial_of((n - 1) as nat);
        assert(n * f >= f) by (nonlinear_arith)
            requires
                n >= 1,
                f >= 1,
        ;
    }
}

/// The factorials of two numbers multiply to no more than the factorial of
/// their sum.
pub proof fn lemma_factorial_product(a: nat, b: nat)
    ensures
        1 <= factorial_of(a) * factorial_of(b) <= factorial_of(a + b),
    decreases b,
{
    lemma_factorial_increases(a, a);
    if b == 0 {
        assert(factorial_of(a) * 1 == factorial_of(a)) by (nonlinear_arith);
    } else {
        lemma_factorial_product(a, (b - 1) as nat);
        let fa = factorial_of(a);
        let fb = factorial_of((b - 1) as nat);
        let fc = factorial_of((a + b - 1) as nat);
        assert(factorial_of(b) == b * fb);
        assert(factorial_of(a + b) == (a + b) * fc);
        assert(1 <= fa * (b * fb) <= (a + b) * fc) by (nonlinear_arith)
            requires
                1 <= fa * fb <= fc,
                b >= 1,
        ;
    }
}

/// The number of ways to pick `k` of `n` things, counted by whether the last
/// thing is picked.
pub open spec fn pascal(n: nat, k: nat) -> nat
    decreases n,
{
    if k == 0 {
        1
    } else if n == 0 {
        0
    } else {
        pascal((n - 1) as nat, (k - 1) as nat) + pascal((n - 1) as nat, k)
    }
}

/// Nothing can be picked from fewer things.
pub proof fn lemma_pascal_beyond(n: nat, k: nat)
    requires
        n < k,
    ensures
        pascal(n, k) == 0,
    decreases n,
{
    if n > 0 {
        lemma_pascal_beyond((n - 1) as nat, (k - 1) as nat);
        lemma_pascal_beyond((n - 1) as nat, k);
    }
}

/// There is one way to pick everything.
pub proof fn lemma_pascal_diagonal(n: nat)
    ensures
        pascal(n, n) == 1,
    decreases n,
{
    if n > 0 {
        lemma_pascal_diagonal((n - 1) as nat);
        lemma_pascal_beyond((n - 1) as nat, n);
    }
}

/// Every choice of `k` of `n` things can be put in order in `k!` ways and
/// the rest in `(n - k)!` ways, which gives every order of the `n` things
/// once.
pub proof fn lemma_pascal_factorials(n: nat, k: nat)
    requires
        k <= n,
    ensures
        pascal(n, k) * (factorial_of(k) * factorial_of((n - k) as nat)) == factorial_of(n),
    decreases n,
{
    let whole = factorial_of(n);
    let rest = factorial_of((n - k) as nat);
    if k == 0 {
        assert(1 * (1 * rest) == rest) by (nonlinear_arith);
    } else if k == n {
        let m = (n - 1) as nat;
        lemma_pascal_factorials(m, m);
        lemma_pascal_beyond(m, n);
        assert(pascal(n, k) == pascal(m, m));
        let lower = factorial_of(m);
        assert(pascal(m, m) * (lower * 1) == lower);
        assert(pascal(m, m) * ((n * lower) * 1) == n * lower) by (nonlinear_arith)
            requires
                pascal(m, m) * (lower * 1) == lower,
        ;
    } else {
        let m = (n - 1) as nat;
        let j = (k - 1) as nat;
        lemma_pascal_factorials(m, j);
        lemma_pascal_factorials(m, k);
        let with_last = pascal(m, j);
        let without = pascal(m, k);
        let lower = factorial_of(m);
        let picked = factorial_of(j);
        let left = factorial_of((m - k) as nat);
        assert(factorial_of(k) == k * picked);
        assert(rest == (n - k) * left);
        assert(with_last * (picked * rest) == lower);
        assert(without * ((k * picked) * left) == lower);
        assert((with_last + without) * ((k * picked) * ((n - k) * left)) == n * lower)
            by (nonlinear_arith)
            requires
                with_last * (picked * ((n - k) * left)) == lower,
                without * ((k * picked) * left) == lower,
        ;
    }
}

/// The quotient of factorials is exact, and it is the number of choices:
/// `n! = C(n, k) k! (n - k)!`.
pub proof fn lemma_binomial_counts(n: nat, k: nat)
    requires
        k <= n,
    ensures
        binomial_of(n, k) == pascal(n, k),
        binomial_of(n, k) * (factorial_of(k) * factorial_of((n - k) as nat)) == factorial_of(n),
{
    lemma_pascal_factorials(n, k);
    lemma_factorial_product(k, (n - k) as nat);
    let orders = factorial_of(k) * factorial_of((n - k) as nat);
    vstd::arithmetic::div_mod::lemma_div_by_multiple(pascal(n, k) as int, orders as int);
}

/// Pascal's rule: a choice either holds the last thing or it does not.
pub proof fn lemma_binomial_pascal(n: nat, k: nat)
    requires
        0 < k < n,
    ensures
        binomial_of(n, k) == binomial_of((n - 1) as nat, (k - 1) as nat) + binomial_of(
            (n - 1) as nat,
            k,
        ),
        binomial_of(n, 0) == 1,
        binomial_of(n, n) == 1,
{
    lemma_binomial_counts(n, k);
    lemma_binomial_counts((n - 1) as nat, (k - 1) as nat);
    lemma_binomial_counts((n - 1) as nat, k);
    lemma_binomial_counts(n, 0);
    lemma_binomial_counts(n, n);
    lemma_pascal_diagonal(n);
}

/// The number of ways to pick at most `g` of `n` things.
pub open spec fn choices_up_to(n: nat, g: nat) -> nat
    decreases g,
{
    if g == 0 {
        pascal(n, 0)
    } else {
        choices_up_to(n, (g - 1) as nat) + pascal(n, g)
    }
}

/// A choice of at most `g` of `n + 1` things is a choice of at most `g` of
/// the first `n`, or the last thing and at most `g - 1` of the first `n`.
pub proof fn lemma_choices_step(n: nat, g: nat)
    ensures
        choices_up_to(n + 1, g) == choices_up_to(n, g) + if g == 0 {
            0
        } else {
            choices_up_to(n, (g - 1) as nat)
        },
    decreases g,
{
    if g > 0 {
        lemma_choices_step(n, (g - 1) as nat);
        assert(pascal(n + 1, g) == pascal(n, (g - 1) as nat) + pascal(n, g));
    }
}

/// The binomial coefficients of `n` add up to two to the power `n`: the
/// blades of all grades are all the blades.
pub proof fn lemma_choices_total(n: nat)
    ensures
        choices_up_to(n, n) == vstd::arithmetic::power::pow(2, n),
    decreases n,
{
    lemma_pow0(2);
    if n > 0 {
        let m = (n - 1) as nat;
        lemma_choices_total(m);
        lemma_choices_step(m, n);
        lemma_pascal_beyond(m, n);
        lemma_pow1(2);
        lemma_pow_adds(2, m, 1);
    }
}

/// The number of basis blades of an algebra of dimension `n`: two to the
/// power `n`.
pub fn basis_blade_count(n: usize) -> (r: usize)
    requires
        vstd::arithmetic::power::pow(2, n as nat) <= usize::MAX,
    ensures
        r == vstd::arithmetic::power::pow(2, n as nat),
{
    pow(2, n)
}

/// The binomial coefficient `n! / (k! (n - k)!)`.
pub fn binomial(n: usize, k: usize) -> (r: usize)
    requires
        k <= n,
        factorial_of(n as nat) <= usize::MAX,
    ensures
        r == binomial_of(n as nat, k as nat),
{
    proof {
        lemma_factorial_increases(k as nat, n as nat);
        lemma_factorial_increases((n - k) as nat, n as nat);
        lemma_factorial_product(k as nat, (n - k) as nat);
    }
    factorial(n) / (factorial(k) * factorial(n - k))
}

/// The factorial of `n`.
pub fn factorial(n: usize) -> (r: usize)
    requires
        factorial_of(n as nat) <= usize::MAX,
    ensures
        r == factorial_of(n as nat),
    decreases n,
{
    if n == 0 {
        1
    } else {
        proof {
            lemma_factorial_increases((n - 1) as nat, n as nat);
        }
        n * factorial(n - 1)
    }
}

/// `n` to the power `k`, by repeated multiplication.
pub fn pow(n: usize, k: usize) -> (r: usize)
    requires
        vstd::arithmetic::power::pow(n as int, k as nat) <= usize::MAX,
    ensures
        r == vstd::arithmetic::power::pow(n as int, k as nat),
{
    let mut result: usize = 1;
    let mut left: usize = k;
    proof {
        lemma_pow0(n as int);
    }
    while left > 0
        invariant
            left <= k,
            result == vstd::arithmetic::power::pow(n as int, (k - left) as nat),
            vstd::arithmetic::power::pow(n as int, k as nat) <= usize::MAX,
        decreases left,
    {
        proof {
            let done = (k - left) as nat;
            lemma_pow1(n as int);
            lemma_pow_adds(n as int, done, 1);
            if n > 0 {
                lemma_pow_increases(n as nat, done + 1, k as nat);
            } else {
                lemma0_pow((done + 1) as nat);
            }
        }
        result *= n;
        left -= 1;
    }
    result
}

/// The elements of `a` followed by those of `b`.
pub fn concat<const N: usize, const M: usize, const L: usize>(a: [i32; N], b: [i32; M]) -> (r: [i32; L])
    requires
        L == N + M,
    ensures
        r@ == a@ + b@,
{
    let mut result = [0i32; L];
    let mut i: usize = 0;
    while i < N
        invariant
            i <= N,
            L == N + M,
            forall|k: int| 0 <= k < i ==> result@[k] == a@[k],
        decreases N - i,
    {
        result[i] = a[i];
        i += 1;
    }
    let mut j: usize = 0;
    while j < M
        invariant
            j <= M,
            L == N + M,
            forall|k: int| 0 <= k < N ==> result@[k] == a@[k],
            forall|k: int| 0 <= k < j ==> result@[N + k] == b@[k],
        decreases M - j,
    {
        result[N + j] = b[j];
        j += 1;
    }
    assert(result@ =~= a@ + b@);
    result
}

/// The length of an array.
pub fn dimension<const N: usize>(_array: [i32; N]) -> (r: usize)
    ensures
        r == N,
        r == _array@.len(),
{
    N
}

/// Whether `n` is even.
pub fn even(n: usize) -> (r: bool)
    ensures
        r == (n % 2 == 0),
{
    assert((n & 1 == 0) == (n % 2 == 0)) by (bit_vector);
    n & 1 == 0
}

/// Whether `n` is odd.
pub fn odd(n: usize) -> (r: bool)
    ensures
        r == (n % 2 == 1),
{
    assert((n & 1 != 0) == (n % 2 == 1)) by (bit_vector);
    n & 1 != 0
}

} // verus!
