//! The mathematical product in `Z_Q[x]/(x^128 + 1)`.
//!
//! A polynomial is a sequence of 128 coefficients stored most significant
//! first: position `p` holds the coefficient of `x^(127 - p)`. The product is
//! stated by degree, as the schoolbook convolution folded under `x^128 = -1`.

use vstd::prelude::*;
use crate::modular::{Q, N, CONV_LEN, all_below, residues, modulo_add, modulo_add64};

verus! {

/// The coefficient of `x^d` in the polynomial that `s` stores most significant
/// first; zero for a degree that `s` does not hold.
pub open spec fn coeff_at(s: Seq<int>, d: int) -> int {
    if 0 <= d < s.len() {
        s[s.len() - 1 - d]
    } else {
        0
    }
}

/// The contribution of `a`'s degree `i` to degree `d` of the product `a * b`.
pub open spec fn conv_term(a: Seq<int>, b: Seq<int>, d: int, i: int) -> int {
    coeff_at(a, i) * coeff_at(b, d - i)
}

/// The sum of `conv_term(a, b, d, i)` over `lo <= i < hi`.
pub open spec fn conv_window(a: Seq<int>, b: Seq<int>, d: int, lo: int, hi: int) -> int
    decreases hi - lo,
{
    if hi <= lo {
        0
    } else {
        conv_window(a, b, d, lo, hi - 1) + conv_term(a, b, d, hi - 1)
    }
}

/// The coefficient of `x^d` in the product of `a` and `b` over the integers:
/// the sum of `a_i * b_(d - i)` over `0 <= i <= d`.
pub open spec fn conv_coeff(a: Seq<int>, b: Seq<int>, d: int) -> int {
    conv_window(a, b, d, 0, d + 1)
}

/// The coefficient of `x^k` in the product of `a` and `b` in
/// `Z_Q[x]/(x^128 + 1)`: degree `k + 128` of the convolution folds onto degree
/// `k` with its sign flipped.
pub open spec fn negacyclic_coeff(a: Seq<int>, b: Seq<int>, k: int) -> int {
    (conv_coeff(a, b, k) - conv_coeff(a, b, k + N)) % (Q as int)
}

/// The product of `a` and `b` in `Z_Q[x]/(x^128 + 1)`, stored most significant
/// first.
pub open spec fn spec_mul(a: Seq<int>, b: Seq<int>) -> Seq<int> {
    Seq::new(N as nat, |p: int| negacyclic_coeff(a, b, N - 1 - p))
}

/// A window splits at any point between its ends.
pub proof fn lemma_window_split(a: Seq<int>, b: Seq<int>, d: int, lo: int, mid: int, hi: int)
    requires
        lo <= mid <= hi,
    ensures
        conv_window(a, b, d, lo, hi) == conv_window(a, b, d, lo, mid) + conv_window(
            a,
            b,
            d,
            mid,
            hi,
        ),
    decreases hi - mid,
{
    if mid < hi {
        lemma_window_split(a, b, d, lo, mid, hi - 1);
    }
}

/// A window over vanishing terms sums to zero.
pub proof fn lemma_window_zero(a: Seq<int>, b: Seq<int>, d: int, lo: int, hi: int)
    requires
        forall|i: int| lo <= i < hi ==> #[trigger] conv_term(a, b, d, i) == 0,
    ensures
        conv_window(a, b, d, lo, hi) == 0,
    decreases hi - lo,
{
    if lo < hi {
        lemma_window_zero(a, b, d, lo, hi - 1);
    }
}

/// Reading a window from the other operand's side: the index `i` of `a`
/// becomes the index `d - i` of `b`.
pub proof fn lemma_window_reflect(a: Seq<int>, b: Seq<int>, d: int, lo: int, hi: int)
    requires
        lo <= hi,
    ensures
        conv_window(a, b, d, lo, hi) == conv_window(b, a, d, d - hi + 1, d - lo + 1),
    decreases hi - lo,
{
    if lo < hi {
        lemma_window_reflect(a, b, d, lo, hi - 1);
        lemma_window_split(b, a, d, d - hi + 1, d - hi + 2, d - lo + 1);
        assert(conv_window(b, a, d, d - hi + 1, d - hi + 2) == conv_term(b, a, d, d - hi + 1)) by {
            assert(conv_window(b, a, d, d - hi + 1, d - hi + 1) == 0);
        }
        assert(conv_term(b, a, d, d - hi + 1) == conv_term(a, b, d, hi - 1)) by {
            assert(d - (d - hi + 1) == hi - 1);
            vstd::arithmetic::mul::lemma_mul_is_commutative(
                coeff_at(a, hi - 1),
                coeff_at(b, d - hi + 1),
            );
        }
    }
}

/// The convolution does not depend on the order of its operands.
pub proof fn lemma_conv_commutes(a: Seq<int>, b: Seq<int>, d: int)
    ensures
        conv_coeff(a, b, d) == conv_coeff(b, a, d),
{
    if 0 <= d + 1 {
        lemma_window_reflect(a, b, d, 0, d + 1);
    }
}

/// For operands of `n` coefficients, the terms of degree `d` of the product
/// all lie in the window `[0, n)`.
pub proof fn lemma_conv_full_window(a: Seq<int>, b: Seq<int>, d: int)
    requires
        0 <= d,
    ensures
        conv_coeff(a, b, d) == conv_window(a, b, d, 0, a.len() as int),
{
    let n = a.len() as int;
    if d + 1 <= n {
        lemma_window_split(a, b, d, 0, d + 1, n);
        assert forall|i: int| d + 1 <= i < n implies #[trigger] conv_term(a, b, d, i) == 0 by {
            assert(coeff_at(b, d - i) == 0);
        }
        lemma_window_zero(a, b, d, d + 1, n);
    } else {
        lemma_window_split(a, b, d, 0, n, d + 1);
        assert forall|i: int| n <= i < d + 1 implies #[trigger] conv_term(a, b, d, i) == 0 by {
            assert(coeff_at(a, i) == 0);
        }
        lemma_window_zero(a, b, d, n, d + 1);
    }
}

/// The product of two polynomials of `n` coefficients each has no term of
/// degree `2n - 1` or above.
pub proof fn lemma_conv_top_vanishes(a: Seq<int>, b: Seq<int>, d: int)
    requires
        d >= a.len() + b.len() - 1,
    ensures
        conv_coeff(a, b, d) == 0,
{
    assert forall|i: int| 0 <= i < d + 1 implies #[trigger] conv_term(a, b, d, i) == 0 by {
        if i < a.len() {
            assert(d - i >= b.len());
            assert(coeff_at(b, d - i) == 0);
        } else {
            assert(coeff_at(a, i) == 0);
        }
    }
    lemma_window_zero(a, b, d, 0, d + 1);
}

/// Multiplication in `Z_Q[x]/(x^128 + 1)` is commutative.
pub proof fn lemma_mul_commutes(a: Seq<int>, b: Seq<int>)
    ensures
        spec_mul(a, b) == spec_mul(b, a),
{
    assert forall|p: int| 0 <= p < N implies spec_mul(a, b)[p] == spec_mul(b, a)[p] by {
        lemma_conv_commutes(a, b, N - 1 - p);
        lemma_conv_commutes(a, b, N - 1 - p + N);
    }
    assert(spec_mul(a, b) =~= spec_mul(b, a));
}

/// What position `n` of `a`, multiplied with the positions below `m` of `b`,
/// adds to position `d` of the convolution buffer.
spec fn partial_row(a: Seq<int>, b: Seq<int>, n: int, m: int, d: int) -> int {
    if 0 <= d - n < m {
        a[n] * b[d - n]
    } else {
        0
    }
}

/// A finished row of the schoolbook product extends every window by one term.
proof fn lemma_row_done(a: Seq<int>, b: Seq<int>, n: int, d: int)
    requires
        a.len() == N,
        b.len() == N,
        0 <= n < N,
        0 <= d < CONV_LEN,
    ensures
        conv_window(a, b, CONV_LEN - 1 - d, N - n, N as int) + partial_row(a, b, n, N as int, d)
            == conv_window(a, b, CONV_LEN - 1 - d, N - n - 1, N as int),
{
    let e = CONV_LEN - 1 - d;
    lemma_window_split(a, b, e, N - n - 1, N - n, N as int);
    assert(conv_window(a, b, e, N - n - 1, N - n) == conv_term(a, b, e, N - n - 1)) by {
        assert(conv_window(a, b, e, N - n - 1, N - n - 1) == 0);
    }
    assert(coeff_at(a, N - n - 1) == a[n]);
    if 0 <= d - n < N {
        assert(coeff_at(b, e - (N - n - 1)) == b[d - n]);
    } else {
        assert(coeff_at(b, e - (N - n - 1)) == 0);
        assert(a[n] * 0 == 0);
    }
}

/// The schoolbook product of two coefficient arrays, each entry reduced modulo
/// `Q` after every partial product. Position `d` of the buffer holds degree
/// `254 - d` of the product.
pub(crate) fn convolve(a: &[u8; N], b: &[u8; N]) -> (tmp: [u8; CONV_LEN])
    ensures
        all_below(tmp@, Q as int),
        forall|d: int|
            0 <= d < CONV_LEN ==> #[trigger] tmp@[d] as int == conv_coeff(
                residues(a@),
                residues(b@),
                CONV_LEN - 1 - d,
            ) % (Q as int),
{
    let ghost sa = residues(a@);
    let ghost sb = residues(b@);
    let mut tmp = [0u8; CONV_LEN];
    let mut n: usize = 0;
    while n < N
        invariant
            n <= N,
            sa == residues(a@),
            sb == residues(b@),
            forall|d: int|
                0 <= d < CONV_LEN ==> #[trigger] tmp@[d] as int == conv_window(
                    sa,
                    sb,
                    CONV_LEN - 1 - d,
                    N - n,
                    N as int,
                ) % (Q as int),
        decreases N - n,
    {
        let x: u32 = a[n] as u32;
        let mut m: usize = 0;
        while m < N
            invariant
                n < N,
                m <= N,
                x == a@[n as int],
                sa == residues(a@),
                sb == residues(b@),
                forall|d: int|
                    0 <= d < CONV_LEN ==> #[trigger] tmp@[d] as int == (conv_window(
                        sa,
                        sb,
                        CONV_LEN - 1 - d,
                        N - n,
                        N as int,
                    ) + partial_row(sa, sb, n as int, m as int, d)) % (Q as int),
            decreases N - m,
        {
            let y: u32 = b[m] as u32;
            assert(x * y <= 65025) by (nonlinear_arith)
                requires
                    x <= 255,
                    y <= 255,
            ;
            let ghost before = tmp@;
            tmp[n + m] = modulo_add64(tmp[n + m] as u32, x * y);
            assert forall|d: int| 0 <= d < CONV_LEN implies #[trigger] tmp@[d] as int == (
            conv_window(sa, sb, CONV_LEN - 1 - d, N - n, N as int) + partial_row(
                sa,
                sb,
                n as int,
                m + 1,
                d,
            )) % (Q as int) by {
                let w = conv_window(sa, sb, CONV_LEN - 1 - d, N - n, N as int);
                if d == n + m {
                    assert(partial_row(sa, sb, n as int, m as int, d) == 0);
                    assert(partial_row(sa, sb, n as int, m + 1, d) == x * y);
                    assert(before[d] as int == w % (Q as int));
                    vstd::arithmetic::div_mod::lemma_add_mod_noop(w, x * y, Q as int);
                    vstd::arithmetic::div_mod::lemma_add_mod_noop(w % (Q as int), x * y, Q as int);
                    vstd::arithmetic::div_mod::lemma_mod_twice(w, Q as int);
                } else {
                    assert(tmp@[d] == before[d]);
                    assert(partial_row(sa, sb, n as int, m + 1, d) == partial_row(
                        sa,
                        sb,
                        n as int,
                        m as int,
                        d,
                    ));
                }
            }
            m += 1;
        }
        assert forall|d: int| 0 <= d < CONV_LEN implies #[trigger] tmp@[d] as int == conv_window(
            sa,
            sb,
            CONV_LEN - 1 - d,
            N - (n + 1),
            N as int,
        ) % (Q as int) by {
            lemma_row_done(sa, sb, n as int, d);
        }
        n += 1;
    }
    assert forall|d: int| 0 <= d < CONV_LEN implies #[trigger] tmp@[d] as int == conv_coeff(
        sa,
        sb,
        CONV_LEN - 1 - d,
    ) % (Q as int) by {
        lemma_conv_full_window(sa, sb, CONV_LEN - 1 - d);
    }
    tmp
}

/// The convolution buffer `t` folded under `x^128 = -1`. Position `p` of the
/// result is degree `127 - p`: its low term stands at `127 + p` of the buffer,
/// and the term above it by 128 degrees at `p - 1`.
pub open spec fn spec_fold(t: Seq<u8>) -> Seq<int> {
    Seq::new(
        N as nat,
        |p: int|
            if p == 0 {
                t[N - 1] as int
            } else {
                (t[N - 1 + p] - t[p - 1]) % (Q as int)
            },
    )
}

/// Folding the reduced convolution of `a` and `b` gives their product in
/// `Z_Q[x]/(x^128 + 1)`.
pub proof fn lemma_fold_is_product(t: Seq<u8>, a: Seq<int>, b: Seq<int>)
    requires
        a.len() == N,
        b.len() == N,
        t.len() == CONV_LEN,
        forall|d: int|
            0 <= d < CONV_LEN ==> #[trigger] t[d] as int == conv_coeff(a, b, CONV_LEN - 1 - d) % (
            Q as int),
    ensures
        spec_fold(t) == spec_mul(a, b),
{
    assert forall|p: int| 0 <= p < N implies spec_fold(t)[p] == spec_mul(a, b)[p] by {
        let lo = conv_coeff(a, b, N - 1 - p);
        let hi = conv_coeff(a, b, N - 1 - p + N);
        assert(t[N - 1 + p] as int == lo % (Q as int));
        if p == 0 {
            lemma_conv_top_vanishes(a, b, CONV_LEN as int);
        } else {
            assert(t[p - 1] as int == hi % (Q as int));
            vstd::arithmetic::div_mod::lemma_sub_mod_noop(lo, hi, Q as int);
        }
    }
    assert(spec_fold(t) =~= spec_mul(a, b));
}

/// Folds the convolution buffer under `x^128 = -1`.
pub(crate) fn fold_negacyclic(tmp: &[u8; CONV_LEN]) -> (ret: [u8; N])
    requires
        all_below(tmp@, Q as int),
    ensures
        residues(ret@) == spec_fold(tmp@),
        all_below(ret@, Q as int),
{
    let mut ret = [0u8; N];
    let mut j: usize = 0;
    while j < N
        invariant
            j <= N,
            forall|p: int| 0 <= p < j ==> #[trigger] ret@[p] == tmp@[N - 1 + p],
        decreases N - j,
    {
        ret[j] = tmp[N - 1 + j];
        j += 1;
    }
    let mut n: usize = 0;
    while n < N - 1
        invariant
            n <= N - 1,
            all_below(tmp@, Q as int),
            ret@[0] == tmp@[N - 1],
            forall|p: int| n < p < N ==> #[trigger] ret@[p] == tmp@[N - 1 + p],
            forall|p: int| 1 <= p <= n ==> #[trigger] ret@[p] as int == spec_fold(tmp@)[p],
        decreases N - 1 - n,
    {
        let high: u8 = tmp[n];
        let low: u8 = ret[1 + n];
        assert(low == tmp@[N + n]);
        ret[1 + n] = modulo_add(Q - high, low);
        assert(ret@[1 + n] as int == (low - high) % (Q as int)) by {
            vstd::arithmetic::div_mod::lemma_mod_add_multiples_vanish(low - high, Q as int);
        }
        n += 1;
    }
    assert(residues(ret@) =~= spec_fold(tmp@));
    ret
}

} // verus!
