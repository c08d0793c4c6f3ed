//! Elements of the ring `Z_Q[x]/(x^128 + 1)` and their arithmetic.

use vstd::prelude::*;
use crate::convolution::{convolve, fold_negacyclic, lemma_fold_is_product, spec_mul};
use crate::modular::{Q, N, all_below, modulo_add, modulo_add64, reduced, residues};

verus! {

/// An element of `Z_Q[x]/(x^128 + 1)`: 128 coefficients, each in `[0, Q)`,
/// stored most significant first.
#[derive(Clone, Copy, Debug, PartialEq, Eq)]
pub struct RingElement {
    coeffs: [u8; N],
}

impl View for RingElement {
    type V = Seq<int>;

    /// The stored coefficients, in the order in which they are stored.
    closed spec fn view(&self) -> Seq<int> {
        residues(self.coeffs@)
    }
}

/// The coefficientwise sum modulo `Q`.
pub open spec fn spec_add(a: Seq<int>, b: Seq<int>) -> Seq<int> {
    Seq::new(N as nat, |i: int| (a[i] + b[i]) % (Q as int))
}

/// The coefficientwise difference modulo `Q`.
pub open spec fn spec_sub(a: Seq<int>, b: Seq<int>) -> Seq<int> {
    Seq::new(N as nat, |i: int| (Q + a[i] - b[i]) % (Q as int))
}

/// Every coefficient multiplied by `k`, modulo `Q`.
pub open spec fn spec_scale(a: Seq<int>, k: int) -> Seq<int> {
    Seq::new(N as nat, |i: int| (a[i] * k) % (Q as int))
}

/// The coefficient sequence of zero.
pub open spec fn spec_zero() -> Seq<int> {
    Seq::new(N as nat, |i: int| 0int)
}

impl RingElement {
    #[verifier::type_invariant]
    spec fn well_formed(self) -> bool {
        all_below(self.coeffs@, Q as int)
    }

    /// The element with the given coefficients, or `None` if one of them is
    /// not reduced modulo `Q`.
    pub fn from_coeffs(coeffs: [u8; N]) -> (r: Option<RingElement>)
        ensures
            r.is_some() <==> all_below(coeffs@, Q as int),
            r matches Some(e) ==> e@ == residues(coeffs@) && reduced(e@),
    {
        let mut i: usize = 0;
        while i < N
            invariant
                i <= N,
                forall|j: int| 0 <= j < i ==> #[trigger] coeffs@[j] < Q,
            decreases N - i,
        {
            if coeffs[i] >= Q {
                return None;
            }
            i += 1;
        }
        Some(RingElement { coeffs })
    }

    /// The stored coefficients.
    pub fn coeffs(&self) -> (c: [u8; N])
        ensures
            residues(c@) == self@,
            all_below(c@, Q as int),
            reduced(self@),
    {
        proof {
            use_type_invariant(self);
        }
        self.coeffs
    }

    /// Adds `other` to this element, coefficient by coefficient.
    pub fn add_assign(&mut self, other: RingElement)
        ensures
            final(self)@ == spec_add(old(self)@, other@),
            reduced(final(self)@),
    {
        proof {
            use_type_invariant(&*self);
        }
        let mut i: usize = 0;
        while i < N
            invariant
                i <= N,
                all_below(self.coeffs@, Q as int),
                forall|j: int|
                    0 <= j < i ==> #[trigger] self.coeffs@[j] as int == spec_add(
                        old(self)@,
                        other@,
                    )[j],
                forall|j: int| i <= j < N ==> #[trigger] self.coeffs@[j] == old(self).coeffs@[j],
            decreases N - i,
        {
            self.coeffs[i] = modulo_add(self.coeffs[i], other.coeffs[i]);
            i += 1;
        }
        assert(self@ =~= spec_add(old(self)@, other@));
    }

    /// Subtracts `other` from this element, coefficient by coefficient.
    pub fn sub_assign(&mut self, other: RingElement)
        ensures
            final(self)@ == spec_sub(old(self)@, other@),
            reduced(final(self)@),
    {
        proof {
            use_type_invariant(&*self);
            use_type_invariant(&other);
        }
        let mut i: usize = 0;
        while i < N
            invariant
                i <= N,
                all_below(self.coeffs@, Q as int),
                all_below(other.coeffs@, Q as int),
                forall|j: int|
                    0 <= j < i ==> #[trigger] self.coeffs@[j] as int == spec_sub(
                        old(self)@,
                        other@,
                    )[j],
                forall|j: int| i <= j < N ==> #[trigger] self.coeffs@[j] == old(self).coeffs@[j],
            decreases N - i,
        {
            let lifted: u32 = Q as u32 + self.coeffs[i] as u32 - other.coeffs[i] as u32;
            self.coeffs[i] = (lifted % (Q as u32)) as u8;
            i += 1;
        }
        assert(self@ =~= spec_sub(old(self)@, other@));
    }

    /// Multiplies every coefficient of this element by `scalar`.
    pub fn mul_assign(&mut self, scalar: u8)
        ensures
            final(self)@ == spec_scale(old(self)@, scalar as int),
            reduced(final(self)@),
    {
        proof {
            use_type_invariant(&*self);
        }
        let k: u32 = scalar as u32;
        let mut i: usize = 0;
        while i < N
            invariant
                i <= N,
                k == scalar,
                all_below(self.coeffs@, Q as int),
                forall|j: int|
                    0 <= j < i ==> #[trigger] self.coeffs@[j] as int == spec_scale(
                        old(self)@,
                        scalar as int,
                    )[j],
                forall|j: int| i <= j < N ==> #[trigger] self.coeffs@[j] == old(self).coeffs@[j],
            decreases N - i,
        {
            let c: u32 = self.coeffs[i] as u32;
            assert(c * k <= 65025) by (nonlinear_arith)
                requires
                    c <= 255,
                    k <= 255,
            ;
            self.coeffs[i] = modulo_add64(0, c * k);
            i += 1;
        }
        assert(self@ =~= spec_scale(old(self)@, scalar as int));
    }

    /// The product of this element and `other` in the ring: their schoolbook
    /// convolution, folded under `x^128 = -1`.
    pub fn mul(&self, other: &RingElement) -> (r: RingElement)
        ensures
            r@ == spec_mul(self@, other@),
            reduced(r@),
    {
        let tmp = convolve(&self.coeffs, &other.coeffs);
        let ret = fold_negacyclic(&tmp);
        proof {
            lemma_fold_is_product(tmp@, self@, other@);
        }
        RingElement { coeffs: ret }
    }
}

impl Default for RingElement {
    /// The zero element.
    fn default() -> (r: RingElement)
        ensures
            r@ == spec_zero(),
            reduced(r@),
    {
        let r = RingElement { coeffs: [0u8; N] };
        assert(r@ =~= spec_zero());
        r
    }
}

/// Subtracting what was added gives the first operand back.
pub proof fn lemma_add_then_sub(a: Seq<int>, b: Seq<int>)
    requires
        reduced(a),
        reduced(b),
    ensures
        spec_sub(spec_add(a, b), b) == a,
{
    assert(spec_sub(spec_add(a, b), b) =~= a);
}

} // verus!
