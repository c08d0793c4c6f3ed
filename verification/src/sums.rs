//! Finite sums of integer functions.

use vstd::prelude::*;

verus! {

/// The sum of `f(i)` over `0 <= i < n`.
pub open spec fn sum(f: spec_fn(int) -> int, n: int) -> int
    decreases n,
{
    if n <= 0 {
        0
    } else {
        sum(f, n - 1) + f(n - 1)
    }
}

/// Functions that agree on `[0, n)` have the same sum.
pub proof fn lemma_sum_pointwise(f: spec_fn(int) -> int, g: spec_fn(int) -> int, n: int)
    requires
        forall|i: int| 0 <= i < n ==> #[trigger] f(i) == g(i),
    ensures
        sum(f, n) == sum(g, n),
    decreases n,
{
    if n > 0 {
        lemma_sum_pointwise(f, g, n - 1);
        assert(f(n - 1) == g(n - 1));
    }
}

/// A function that vanishes on `[0, n)` sums to zero.
pub proof fn lemma_sum_zero(f: spec_fn(int) -> int, n: int)
    requires
        forall|i: int| 0 <= i < n ==> #[trigger] f(i) == 0,
    ensures
        sum(f, n) == 0,
    decreases n,
{
    if n > 0 {
        lemma_sum_zero(f, n - 1);
        assert(f(n - 1) == 0);
    }
}

/// Functions that are congruent modulo `q` on `[0, n)` have congruent sums.
pub proof fn lemma_sum_congruent(
    f: spec_fn(int) -> int,
    g: spec_fn(int) -> int,
    n: int,
    q: int,
)
    requires
        q > 0,
        forall|i: int| 0 <= i < n ==> (#[trigger] f(i)) % q == g(i) % q,
    ensures
        sum(f, n) % q == sum(g, n) % q,
    decreases n,
{
    if n > 0 {
        lemma_sum_congruent(f, g, n - 1, q);
        assert(f(n - 1) % q == g(n - 1) % q);
        vstd::arithmetic::div_mod::lemma_add_mod_noop(sum(f, n - 1), f(n - 1), q);
        vstd::arithmetic::div_mod::lemma_add_mod_noop(sum(g, n - 1), g(n - 1), q);
    }
}

/// A constant factor moves out of a sum.
pub proof fn lemma_sum_scale(f: spec_fn(int) -> int, c: int, n: int)
    ensures
        sum(|i: int| c * f(i), n) == c * sum(f, n),
    decreases n,
{
    let g = |i: int| c * f(i);
    if n > 0 {
        lemma_sum_scale(f, c, n - 1);
        assert(g(n - 1) == c * f(n - 1));
        vstd::arithmetic::mul::lemma_mul_is_distributive_add(c, sum(f, n - 1), f(n - 1));
    } else {
        assert(c * 0 == 0);
    }
}

/// The sum of a sum of two functions is the sum of their sums.
pub proof fn lemma_sum_add(f: spec_fn(int) -> int, g: spec_fn(int) -> int, n: int)
    ensures
        sum(|i: int| f(i) + g(i), n) == sum(f, n) + sum(g, n),
    decreases n,
{
    let h = |i: int| f(i) + g(i);
    if n > 0 {
        lemma_sum_add(f, g, n - 1);
        assert(h(n - 1) == f(n - 1) + g(n - 1));
    }
}

/// The order of two nested sums can be exchanged.
pub proof fn lemma_sum_exchange(g: spec_fn(int, int) -> int, n: int, m: int)
    ensures
        sum(|j: int| sum(|i: int| g(i, j), n), m) == sum(|i: int| sum(|j: int| g(i, j), m), n),
    decreases m,
{
    let rows = |j: int| sum(|i: int| g(i, j), n);
    let cols = |i: int| sum(|j: int| g(i, j), m);
    if m > 0 {
        lemma_sum_exchange(g, n, m - 1);
        let cols_before = |i: int| sum(|j: int| g(i, j), m - 1);
        let last = |i: int| g(i, m - 1);
        assert(rows(m - 1) == sum(last, n));
        assert(sum(rows, m - 1) == sum(cols_before, n));
        lemma_sum_add(cols_before, last, n);
        let both = |i: int| cols_before(i) + last(i);
        assert forall|i: int| 0 <= i < n implies #[trigger] cols(i) == both(i) by {
            let inner = |j: int| g(i, j);
            assert(sum(inner, m) == sum(inner, m - 1) + inner(m - 1));
        }
        lemma_sum_pointwise(cols, both, n);
    } else {
        assert forall|i: int| 0 <= i < n implies #[trigger] cols(i) == 0 by {}
        lemma_sum_zero(cols, n);
    }
}

/// Moving a window of a function's own period along does not change the sum
/// over it.
pub proof fn lemma_sum_rotate(h: spec_fn(int) -> int, n: int, s: int)
    requires
        0 <= n,
        0 <= s,
        forall|i: int, j: int| j == i + n ==> #[trigger] h(i) == #[trigger] h(j),
    ensures
        sum(|j: int| h(j - s), n) == sum(h, n),
    decreases s,
{
    let shifted = |j: int| h(j - s);
    if s == 0 {
        assert forall|j: int| 0 <= j < n implies #[trigger] shifted(j) == h(j) by {}
        lemma_sum_pointwise(shifted, h, n);
    } else {
        let before = |j: int| h(j - (s - 1));
        lemma_sum_rotate(h, n, s - 1);
        lemma_sum_step_back(before, n);
        assert forall|j: int| 0 <= j < n implies #[trigger] shifted(j) == (|j: int| before(j - 1))(
            j,
        ) by {}
        lemma_sum_pointwise(shifted, |j: int| before(j - 1), n);
        if n > 0 {
            assert(before(-1) == h(-s));
            assert(before(n - 1) == h(n - s));
            assert(h(-s) == h(n - s));
        }
    }
}

/// Moving a window one step back takes in the value before it and drops its
/// last one.
pub proof fn lemma_sum_step_back(f: spec_fn(int) -> int, n: int)
    requires
        0 <= n,
    ensures
        n > 0 ==> sum(|j: int| f(j - 1), n) == f(-1) + sum(f, n) - f(n - 1),
        n == 0 ==> sum(|j: int| f(j - 1), n) == 0,
    decreases n,
{
    let g = |j: int| f(j - 1);
    if n > 1 {
        lemma_sum_step_back(f, n - 1);
        assert(g(n - 1) == f(n - 2));
        assert(sum(f, n) == sum(f, n - 1) + f(n - 1));
        assert(sum(f, n - 1) == sum(f, n - 2) + f(n - 2));
    } else if n == 1 {
        assert(sum(g, 0) == 0);
        assert(sum(f, 0) == 0);
        assert(g(0) == f(-1));
    }
}

} // verus!
