//! The modulus and addition modulo it.

use vstd::prelude::*;

verus! {

/// The modulus of all coefficient arithmetic: the largest prime below 256.
pub const Q: u8 = 251;

/// The number of coefficients of a ring element, and of bits of a signal vector.
pub const N: usize = 128;

/// The number of coefficients of the product of two polynomials of `N`
/// coefficients each, before it is folded.
pub const CONV_LEN: usize = 255;

/// Whether every byte of `s` lies below `bound`.
pub open spec fn all_below(s: Seq<u8>, bound: int) -> bool {
    forall|i: int| 0 <= i < s.len() ==> (#[trigger] s[i]) < bound
}

/// The bytes of `s` as integers.
pub open spec fn residues(s: Seq<u8>) -> Seq<int> {
    Seq::new(s.len(), |i: int| s[i] as int)
}

/// Whether `s` is the coefficient sequence of a ring element: `N` integers,
/// each in `[0, Q)`.
pub open spec fn reduced(s: Seq<int>) -> bool {
    &&& s.len() == N
    &&& forall|i: int| 0 <= i < N ==> 0 <= #[trigger] s[i] < Q
}

/// The sum of two wide operands, reduced modulo `Q`.
pub fn modulo_add64(a: u32, b: u32) -> (r: u8)
    requires
        a + b <= u32::MAX,
    ensures
        r == (a + b) % (Q as int),
        r < Q,
{
    ((a + b) % (Q as u32)) as u8
}

/// The sum of two bytes, reduced modulo `Q`.
pub fn modulo_add(a: u8, b: u8) -> (r: u8)
    ensures
        r == (a + b) % (Q as int),
        r < Q,
{
    modulo_add64(a as u32, b as u32)
}

} // verus!
