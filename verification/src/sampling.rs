//! Drawing ring elements from a random number generator.

use vstd::prelude::*;
use rand::Rng;
use rand::rngs::StdRng;
use crate::modular::{Q, N, all_below, reduced};
use crate::ring::RingElement;
use crate::thresholds::Thresholds;

verus! {

#[verifier::external_type_specification]
#[verifier::external_body]
pub struct ExStdRng(StdRng);

/// Calls `rand::Rng::gen_range` on the range `0..bound`. That method panics on
/// an empty range, which `bound > 0` rules out; what it returns lies in the
/// range. Nothing more is claimed of the value drawn.
#[verifier::external_body]
fn draw_below(rng: &mut StdRng, bound: u8) -> (r: u8)
    requires
        bound > 0,
    ensures
        r < bound,
{
    rng.gen_range(0..bound)
}

/// Whether `s` is the coefficient sequence of a noise element: `N` integers,
/// each in `[0, Q/16)`.
pub open spec fn noise_bounded(s: Seq<int>) -> bool {
    &&& s.len() == N
    &&& forall|i: int| 0 <= i < N ==> 0 <= #[trigger] s[i] < Q / 16
}

/// An array of `N` bytes, each drawn from `[0, bound)`.
fn draw_coeffs(rng: &mut StdRng, bound: u8) -> (c: [u8; N])
    requires
        bound > 0,
    ensures
        all_below(c@, bound as int),
{
    let mut c = [0u8; N];
    let mut i: usize = 0;
    while i < N
        invariant
            i <= N,
            bound > 0,
            forall|j: int| 0 <= j < N ==> #[trigger] c@[j] < bound,
        decreases N - i,
    {
        c[i] = draw_below(rng, bound);
        i += 1;
    }
    c
}

impl RingElement {
    /// An element whose coefficients are each drawn from `[0, Q)`.
    pub fn random(rng: &mut StdRng) -> (r: RingElement)
        ensures
            reduced(r@),
    {
        let c = draw_coeffs(rng, Q);
        RingElement::from_coeffs(c).unwrap()
    }
}

/// A noise element: every coefficient is drawn from `[0, Q/16)`.
pub fn gen_noise(rng: &mut StdRng) -> (e: RingElement)
    ensures
        noise_bounded(e@),
        reduced(e@),
{
    let t = Thresholds::for_modulus(Q);
    let c = draw_coeffs(rng, t.q16);
    RingElement::from_coeffs(c).unwrap()
}

} // verus!
