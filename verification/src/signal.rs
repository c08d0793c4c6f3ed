//! Vectors of 128 bits: the published signal and the derived secret.

use vstd::prelude::*;
use crate::modular::N;

verus! {

/// A vector of 128 bits, one per coefficient position.
#[derive(Clone, Copy, Debug, PartialEq, Eq)]
pub struct SignalVector {
    pub bits: [bool; N],
}

impl View for SignalVector {
    type V = Seq<bool>;

    open spec fn view(&self) -> Seq<bool> {
        self.bits@
    }
}

/// The bitwise exclusive or.
pub open spec fn spec_xor(a: Seq<bool>, b: Seq<bool>) -> Seq<bool> {
    Seq::new(N as nat, |i: int| a[i] != b[i])
}

/// The vector whose bits are all false.
pub open spec fn spec_all_false() -> Seq<bool> {
    Seq::new(N as nat, |i: int| false)
}

impl SignalVector {
    /// The bitwise exclusive or of this vector and `rhs`.
    pub fn bitxor(&self, rhs: &SignalVector) -> (r: SignalVector)
        ensures
            r@ == spec_xor(self@, rhs@),
    {
        let mut bits = [false; N];
        let mut i: usize = 0;
        while i < N
            invariant
                i <= N,
                forall|j: int| 0 <= j < i ==> #[trigger] bits@[j] == (self@[j] != rhs@[j]),
            decreases N - i,
        {
            bits[i] = self.bits[i] != rhs.bits[i];
            i += 1;
        }
        assert(bits@ =~= spec_xor(self@, rhs@));
        SignalVector { bits }
    }

    /// Whether this vector and `other` hold the same bits.
    pub fn agrees_with(&self, other: &SignalVector) -> (same: bool)
        ensures
            same <==> self@ == other@,
    {
        let mut i: usize = 0;
        while i < N
            invariant
                i <= N,
                forall|j: int| 0 <= j < i ==> #[trigger] self@[j] == other@[j],
            decreases N - i,
        {
            if self.bits[i] != other.bits[i] {
                return false;
            }
            i += 1;
        }
        assert(self@ =~= other@);
        true
    }
}

impl Default for SignalVector {
    /// The vector whose bits are all false.
    fn default() -> (r: SignalVector)
        ensures
            r@ == spec_all_false(),
    {
        let r = SignalVector { bits: [false; N] };
        assert(r@ =~= spec_all_false());
        r
    }
}

/// Exclusive or does not depend on the order of its operands.
pub proof fn lemma_xor_commutes(a: Seq<bool>, b: Seq<bool>)
    ensures
        spec_xor(a, b) == spec_xor(b, a),
{
    assert(spec_xor(a, b) =~= spec_xor(b, a));
}

/// A vector is its own inverse under exclusive or.
pub proof fn lemma_xor_self_inverse(v: Seq<bool>)
    ensures
        spec_xor(v, v) == spec_all_false(),
{
    assert(spec_xor(v, v) =~= spec_all_false());
}

/// Exclusive or is associative.
pub proof fn lemma_xor_associates(a: Seq<bool>, b: Seq<bool>, c: Seq<bool>)
    ensures
        spec_xor(spec_xor(a, b), c) == spec_xor(a, spec_xor(b, c)),
{
    assert(spec_xor(spec_xor(a, b), c) =~= spec_xor(a, spec_xor(b, c)));
}

} // verus!
