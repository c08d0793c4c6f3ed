//! The product in `Z_Q[x]/(x^128 + 1)` as a wrapped sum, and its
//! associativity.
//!
//! Under `x^128 = -1` a polynomial of 128 coefficients extends to every
//! integer degree: going up by 128 degrees flips the sign. Over the extended
//! coefficients the folded convolution is a single sum over 128 terms.

use vstd::prelude::*;
use vstd::arithmetic::div_mod::{
    lemma_add_mod_noop,
    lemma_mod_twice,
    lemma_mul_mod_noop_left,
    lemma_mul_mod_noop_right,
    lemma_sub_mod_noop,
};
use vstd::arithmetic::mul::{
    lemma_mul_is_associative,
    lemma_mul_is_distributive_add,
    lemma_mul_is_commutative,
    lemma_mul_unary_negation,
};
use crate::convolution::{
    coeff_at,
    conv_window,
    lemma_conv_full_window,
    negacyclic_coeff,
    spec_mul,
};
use crate::modular::{N, Q};
use crate::ring::spec_add;
use crate::sums::{
    lemma_sum_add,
    lemma_sum_congruent,
    lemma_sum_exchange,
    lemma_sum_pointwise,
    lemma_sum_rotate,
    lemma_sum_scale,
    sum,
};

verus! {

/// The coefficient of `x^j` of `s` for any integer degree `j`, with
/// `x^128 = -1`: the coefficient of `x^(j mod 128)`, negated where `j` lies an
/// odd number of times 128 away from it.
pub open spec fn ext(s: Seq<int>, j: int) -> int {
    if (j / (N as int)) % 2 == 0 {
        coeff_at(s, j % (N as int))
    } else {
        -coeff_at(s, j % (N as int))
    }
}

/// What degree `i` of `a` adds to degree `k` of the wrapped product.
pub open spec fn wrapped_term(a: Seq<int>, b: Seq<int>, k: int) -> spec_fn(int) -> int {
    |i: int| ext(a, i) * ext(b, k - i)
}

/// Degree `k` of the product of `a` and `b` under `x^128 = -1`, over the
/// integers.
pub open spec fn wrapped_product(a: Seq<int>, b: Seq<int>, k: int) -> int {
    sum(wrapped_term(a, b, k), N as int)
}

/// What degree `i` of `a` and degree `j - i` of `b` add to degree `k` of a
/// product of three.
pub open spec fn triple_term(a: Seq<int>, b: Seq<int>, c: Seq<int>, k: int) -> spec_fn(
    int,
    int,
) -> int {
    |i: int, j: int| ext(a, i) * (ext(b, j - i) * ext(c, k - j))
}

/// Going up by 128 degrees flips the sign.
pub proof fn lemma_ext_antiperiodic(s: Seq<int>, j: int)
    ensures
        ext(s, j + N) == -ext(s, j),
{
}

/// The difference of the low and the high window of the convolution is the
/// wrapped sum.
proof fn lemma_windows_wrap(a: Seq<int>, b: Seq<int>, k: int, n: int)
    requires
        a.len() == N,
        b.len() == N,
        0 <= k < N,
        0 <= n <= N,
    ensures
        conv_window(a, b, k, 0, n) - conv_window(a, b, k + N, 0, n) == sum(
            wrapped_term(a, b, k),
            n,
        ),
    decreases n,
{
    if n > 0 {
        lemma_windows_wrap(a, b, k, n - 1);
        let i = n - 1;
        let x = coeff_at(a, i);
        assert(ext(a, i) == x);
        assert(wrapped_term(a, b, k)(i) == ext(a, i) * ext(b, k - i));
        assert(x * 0 == 0);
        if k - i >= 0 {
            assert(ext(b, k - i) == coeff_at(b, k - i));
            assert(coeff_at(b, k + N - i) == 0);
        } else {
            assert(ext(b, k - i) == -coeff_at(b, k + N - i));
            assert(coeff_at(b, k - i) == 0);
            lemma_mul_unary_negation(x, coeff_at(b, k + N - i));
        }
    }
}

/// The folded convolution is the wrapped product, reduced modulo `Q`.
pub proof fn lemma_product_wraps(a: Seq<int>, b: Seq<int>, k: int)
    requires
        a.len() == N,
        b.len() == N,
        0 <= k < N,
    ensures
        negacyclic_coeff(a, b, k) == wrapped_product(a, b, k) % (Q as int),
{
    lemma_conv_full_window(a, b, k);
    lemma_conv_full_window(a, b, k + N);
    lemma_windows_wrap(a, b, k, N as int);
}

/// The wrapped product flips its sign 128 degrees up, as its operands do.
pub proof fn lemma_wrapped_product_antiperiodic(a: Seq<int>, b: Seq<int>, k: int)
    ensures
        wrapped_product(a, b, k + N) == -wrapped_product(a, b, k),
{
    let f = wrapped_term(a, b, k);
    let g = wrapped_term(a, b, k + N);
    let negated = |i: int| (-1) * f(i);
    assert forall|i: int| 0 <= i < N implies #[trigger] g(i) == negated(i) by {
        lemma_ext_antiperiodic(b, k - i);
        assert(k + N - i == k - i + N);
        lemma_mul_unary_negation(ext(a, i), ext(b, k - i));
    }
    lemma_sum_pointwise(g, negated, N as int);
    lemma_sum_scale(f, -1, N as int);
}

/// The extended coefficients of a product are congruent to the wrapped
/// product, also below degree zero.
proof fn lemma_ext_of_product(a: Seq<int>, b: Seq<int>, j: int)
    requires
        a.len() == N,
        b.len() == N,
        -N <= j < N,
    ensures
        ext(spec_mul(a, b), j) % (Q as int) == wrapped_product(a, b, j) % (Q as int),
{
    let ab = spec_mul(a, b);
    if j >= 0 {
        lemma_product_wraps(a, b, j);
        assert(ext(ab, j) == ab[N - 1 - j]);
        lemma_mod_twice(wrapped_product(a, b, j), Q as int);
    } else {
        lemma_product_wraps(a, b, j + N);
        lemma_wrapped_product_antiperiodic(a, b, j);
        assert(ext(ab, j) == -ab[N - 1 - (j + N)]);
        lemma_sub_mod_noop(0, wrapped_product(a, b, j + N), Q as int);
    }
}

/// Degree `k` of `(a * b) * c` is congruent to the sum of the triple terms,
/// taken row by row.
proof fn lemma_left_nested(a: Seq<int>, b: Seq<int>, c: Seq<int>, k: int)
    requires
        a.len() == N,
        b.len() == N,
        c.len() == N,
        0 <= k < N,
    ensures
        wrapped_product(spec_mul(a, b), c, k) % (Q as int) == sum(
            |j: int| sum(|i: int| triple_term(a, b, c, k)(i, j), N as int),
            N as int,
        ) % (Q as int),
{
    let ab = spec_mul(a, b);
    let g = triple_term(a, b, c, k);
    let f = wrapped_term(ab, c, k);
    let rows = |j: int| sum(|i: int| g(i, j), N as int);
    assert forall|j: int| 0 <= j < N implies (#[trigger] f(j)) % (Q as int) == rows(j) % (
    Q as int) by {
        let e = ext(c, k - j);
        lemma_ext_of_product(a, b, j);
        lemma_mul_mod_noop_left(ext(ab, j), e, Q as int);
        lemma_mul_mod_noop_left(wrapped_product(a, b, j), e, Q as int);
        let t = wrapped_term(a, b, j);
        lemma_sum_scale(t, e, N as int);
        let scaled = |i: int| e * t(i);
        let row = |i: int| g(i, j);
        assert forall|i: int| 0 <= i < N implies #[trigger] scaled(i) == row(i) by {
            lemma_mul_is_commutative(e, ext(a, i) * ext(b, j - i));
            lemma_mul_is_associative(ext(a, i), ext(b, j - i), e);
        }
        lemma_sum_pointwise(scaled, row, N as int);
        lemma_mul_is_commutative(e, sum(t, N as int));
        assert(wrapped_product(a, b, j) * e == rows(j));
        assert(f(j) == ext(ab, j) * e);
    }
    lemma_sum_congruent(f, rows, N as int, Q as int);
}

/// Degree `k` of `a * (b * c)` is congruent to the sum of the triple terms,
/// taken column by column.
proof fn lemma_right_nested(a: Seq<int>, b: Seq<int>, c: Seq<int>, k: int)
    requires
        a.len() == N,
        b.len() == N,
        c.len() == N,
        0 <= k < N,
    ensures
        wrapped_product(a, spec_mul(b, c), k) % (Q as int) == sum(
            |i: int| sum(|j: int| triple_term(a, b, c, k)(i, j), N as int),
            N as int,
        ) % (Q as int),
{
    let bc = spec_mul(b, c);
    let g = triple_term(a, b, c, k);
    let f = wrapped_term(a, bc, k);
    let cols = |i: int| sum(|j: int| g(i, j), N as int);
    assert forall|i: int| 0 <= i < N implies (#[trigger] f(i)) % (Q as int) == cols(i) % (
    Q as int) by {
        let x = ext(a, i);
        lemma_ext_of_product(b, c, k - i);
        lemma_mul_mod_noop_right(x, ext(bc, k - i), Q as int);
        lemma_mul_mod_noop_right(x, wrapped_product(b, c, k - i), Q as int);
        let h = wrapped_term(b, c, k - i);
        assert forall|p: int, r: int| r == p + N implies #[trigger] h(p) == #[trigger] h(r) by {
            lemma_ext_antiperiodic(b, p);
            lemma_ext_antiperiodic(c, k - i - r);
            assert(k - i - r + N == k - i - p);
            lemma_mul_unary_negation(ext(b, p), ext(c, k - i - r));
            lemma_mul_unary_negation(ext(b, p), ext(c, k - i - p));
        }
        lemma_sum_rotate(h, N as int, i);
        let rotated = |j: int| h(j - i);
        lemma_sum_scale(rotated, x, N as int);
        let scaled = |j: int| x * rotated(j);
        let col = |j: int| g(i, j);
        assert forall|j: int| 0 <= j < N implies #[trigger] scaled(j) == col(j) by {
            assert(k - i - (j - i) == k - j);
        }
        lemma_sum_pointwise(scaled, col, N as int);
        assert(x * wrapped_product(b, c, k - i) == cols(i));
        assert(f(i) == x * ext(bc, k - i));
    }
    lemma_sum_congruent(f, cols, N as int, Q as int);
}

/// Multiplication in `Z_Q[x]/(x^128 + 1)` is associative.
pub proof fn lemma_mul_associates(a: Seq<int>, b: Seq<int>, c: Seq<int>)
    requires
        a.len() == N,
        b.len() == N,
        c.len() == N,
    ensures
        spec_mul(spec_mul(a, b), c) == spec_mul(a, spec_mul(b, c)),
{
    let left = spec_mul(spec_mul(a, b), c);
    let right = spec_mul(a, spec_mul(b, c));
    assert forall|p: int| 0 <= p < N implies left[p] == right[p] by {
        let k = N - 1 - p;
        lemma_product_wraps(spec_mul(a, b), c, k);
        lemma_product_wraps(a, spec_mul(b, c), k);
        lemma_left_nested(a, b, c, k);
        lemma_right_nested(a, b, c, k);
        lemma_sum_exchange(triple_term(a, b, c, k), N as int, N as int);
    }
    assert(left =~= right);
}

/// The extended coefficients of a sum are congruent to the sums of the
/// extended coefficients.
proof fn lemma_ext_of_sum(x: Seq<int>, y: Seq<int>, j: int)
    requires
        x.len() == N,
        y.len() == N,
    ensures
        ext(spec_add(x, y), j) % (Q as int) == (ext(x, j) + ext(y, j)) % (Q as int),
{
    let r = j % (N as int);
    let both = coeff_at(x, r) + coeff_at(y, r);
    assert(coeff_at(spec_add(x, y), r) == both % (Q as int));
    if (j / (N as int)) % 2 == 0 {
        lemma_mod_twice(both, Q as int);
    } else {
        lemma_sub_mod_noop(0, both, Q as int);
    }
}

/// Multiplication in `Z_Q[x]/(x^128 + 1)` distributes over addition.
pub proof fn lemma_mul_distributes(s: Seq<int>, x: Seq<int>, y: Seq<int>)
    requires
        s.len() == N,
        x.len() == N,
        y.len() == N,
    ensures
        spec_mul(s, spec_add(x, y)) == spec_add(spec_mul(s, x), spec_mul(s, y)),
{
    let left = spec_mul(s, spec_add(x, y));
    let right = spec_add(spec_mul(s, x), spec_mul(s, y));
    assert forall|p: int| 0 <= p < N implies left[p] == right[p] by {
        let k = N - 1 - p;
        let f = wrapped_term(s, spec_add(x, y), k);
        let fx = wrapped_term(s, x, k);
        let fy = wrapped_term(s, y, k);
        let split = |i: int| fx(i) + fy(i);
        assert forall|i: int| 0 <= i < N implies (#[trigger] f(i)) % (Q as int) == split(i) % (
        Q as int) by {
            let e = ext(s, i);
            lemma_ext_of_sum(x, y, k - i);
            lemma_mul_mod_noop_right(e, ext(spec_add(x, y), k - i), Q as int);
            lemma_mul_mod_noop_right(e, ext(x, k - i) + ext(y, k - i), Q as int);
            lemma_mul_is_distributive_add(e, ext(x, k - i), ext(y, k - i));
        }
        lemma_sum_congruent(f, split, N as int, Q as int);
        lemma_sum_add(fx, fy, N as int);
        lemma_product_wraps(s, spec_add(x, y), k);
        lemma_product_wraps(s, x, k);
        lemma_product_wraps(s, y, k);
        lemma_add_mod_noop(wrapped_product(s, x, k), wrapped_product(s, y, k), Q as int);
    }
    assert(left =~= right);
}

} // verus!
