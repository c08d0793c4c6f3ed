//! The key exchange: public shares, the signal, and the secret bits.

use vstd::prelude::*;
use rand::rngs::StdRng;
use crate::convolution::{lemma_mul_commutes, spec_mul};
use crate::modular::{Q, N, reduced};
use crate::negacyclic::{lemma_mul_associates, lemma_mul_distributes};
use crate::ring::{RingElement, spec_add, spec_scale, spec_zero};
use crate::sampling::{gen_noise, noise_bounded};
use crate::signal::SignalVector;
use crate::thresholds::{Thresholds, spec_secret_bit, spec_signal_bit};

verus! {

/// What one party holds after generating its share: the secret and the noise,
/// which stay with the party, and the public share, which it sends.
#[derive(Clone, Copy, Debug, PartialEq, Eq)]
pub struct PartyShare {
    pub secret: RingElement,
    pub noise: RingElement,
    pub public: RingElement,
}

/// The public share of a party with the given secret and noise under the
/// shared parameter `a`: `a * secret + 2 * noise`.
pub open spec fn spec_public(a: Seq<int>, secret: Seq<int>, noise: Seq<int>) -> Seq<int> {
    spec_add(spec_mul(a, secret), spec_scale(noise, 2))
}

/// The signal of a public share: one signal bit per coefficient.
pub open spec fn spec_signal(p: Seq<int>) -> Seq<bool> {
    Seq::new(N as nat, |i: int| spec_signal_bit(p[i], Q as int))
}

/// The bits that the signal `w` rounds the cross product `cross` to.
pub open spec fn spec_round(w: Seq<bool>, cross: Seq<int>) -> Seq<bool> {
    Seq::new(N as nat, |i: int| spec_secret_bit(w[i], cross[i], Q as int))
}

impl PartyShare {
    /// The share of a party that drew `secret` and `noise`, under the shared
    /// parameter `a`.
    pub fn from_parts(a: &RingElement, secret: RingElement, noise: RingElement) -> (share:
        PartyShare)
        ensures
            share.secret == secret,
            share.noise == noise,
            share.public@ == spec_public(a@, secret@, noise@),
            reduced(share.public@),
    {
        let mut doubled = noise;
        doubled.mul_assign(2);
        let mut public = a.mul(&secret);
        public.add_assign(doubled);
        PartyShare { secret, noise, public }
    }
}

/// Generates one party's share under the shared parameter `a`: a secret drawn
/// from the whole coefficient range, a noise element, and the public share
/// that the two determine.
pub fn gen_sep(a: &RingElement, rng: &mut StdRng) -> (share: PartyShare)
    ensures
        reduced(share.secret@),
        noise_bounded(share.noise@),
        share.public@ == spec_public(a@, share.secret@, share.noise@),
        reduced(share.public@),
{
    let s = RingElement::random(rng);
    let e = gen_noise(rng);
    PartyShare::from_parts(a, s, e)
}

/// The signal of the public share `p`.
pub fn compute_w(p: RingElement) -> (w: SignalVector)
    ensures
        w@ == spec_signal(p@),
{
    let t = Thresholds::for_modulus(Q);
    let c = p.coeffs();
    let mut bits = [false; N];
    let mut i: usize = 0;
    while i < N
        invariant
            i <= N,
            t.derived_from(Q as int),
            forall|j: int|
                0 <= j < i ==> #[trigger] bits@[j] == spec_signal_bit(c@[j] as int, Q as int),
        decreases N - i,
    {
        bits[i] = t.signal_bit(c[i]);
        i += 1;
    }
    assert(bits@ =~= spec_signal(p@));
    SignalVector { bits }
}

/// Rounds the cross product `cross` to bits under the signal `w`.
pub fn round_cross(w: &SignalVector, cross: &RingElement) -> (bits: SignalVector)
    ensures
        bits@ == spec_round(w@, cross@),
{
    let t = Thresholds::for_modulus(Q);
    let c = cross.coeffs();
    let mut bits = [false; N];
    let mut i: usize = 0;
    while i < N
        invariant
            i <= N,
            t.derived_from(Q as int),
            forall|j: int|
                0 <= j < i ==> #[trigger] bits@[j] == spec_secret_bit(
                    w@[j],
                    c@[j] as int,
                    Q as int,
                ),
        decreases N - i,
    {
        bits[i] = t.secret_bit(w.bits[i], c[i]);
        i += 1;
    }
    assert(bits@ =~= spec_round(w@, cross@));
    SignalVector { bits }
}

/// The secret bits of the party with secret `s`, from the signal `w` and the
/// peer's public share `p`: the cross product `s * p`, rounded under `w`.
pub fn compute_sks(w: &SignalVector, s: &RingElement, p: &RingElement) -> (bits: SignalVector)
    ensures
        bits@ == spec_round(w@, spec_mul(s@, p@)),
{
    let tmp = s.mul(p);
    round_cross(w, &tmp)
}

/// The product of the shared parameter and both secrets, which the cross
/// products of the two parties have in common.
pub open spec fn spec_common(a: Seq<int>, secret_a: Seq<int>, secret_b: Seq<int>) -> Seq<int> {
    spec_mul(spec_mul(a, secret_a), secret_b)
}

/// The cross product of a party is the common product plus its own secret
/// times the doubled noise of its peer. The two cross products therefore
/// differ by what the secrets make of the other side's noise, which no bound
/// on the noise alone keeps small.
pub proof fn lemma_cross_product(
    a: Seq<int>,
    secret: Seq<int>,
    peer_secret: Seq<int>,
    peer_noise: Seq<int>,
)
    requires
        reduced(a),
        reduced(secret),
        reduced(peer_secret),
        reduced(peer_noise),
    ensures
        spec_mul(secret, spec_public(a, peer_secret, peer_noise)) == spec_add(
            spec_common(a, secret, peer_secret),
            spec_mul(secret, spec_scale(peer_noise, 2)),
        ),
        spec_common(a, secret, peer_secret) == spec_common(a, peer_secret, secret),
{
    lemma_mul_distributes(secret, spec_mul(a, peer_secret), spec_scale(peer_noise, 2));
    lemma_mul_associates(secret, a, peer_secret);
    lemma_mul_commutes(secret, a);
    lemma_mul_associates(a, secret, peer_secret);
    lemma_mul_associates(a, peer_secret, secret);
    lemma_mul_commutes(secret, peer_secret);
}

/// Without noise the public share is the product of the shared parameter and
/// the secret.
pub proof fn lemma_noiseless_share(a: Seq<int>, secret: Seq<int>)
    ensures
        spec_public(a, secret, spec_zero()) == spec_mul(a, secret),
{
    assert(spec_public(a, secret, spec_zero()) =~= spec_mul(a, secret));
}

/// Without noise the two parties derive the same bits under any signal: each
/// one's cross product is the product of the shared parameter and both
/// secrets.
pub proof fn lemma_noiseless_agreement(
    a: Seq<int>,
    secret_a: Seq<int>,
    secret_b: Seq<int>,
    w: Seq<bool>,
)
    requires
        reduced(a),
        reduced(secret_a),
        reduced(secret_b),
    ensures
        spec_round(w, spec_mul(secret_a, spec_public(a, secret_b, spec_zero()))) == spec_round(
            w,
            spec_mul(secret_b, spec_public(a, secret_a, spec_zero())),
        ),
{
    lemma_noiseless_share(a, secret_a);
    lemma_noiseless_share(a, secret_b);
    lemma_mul_associates(secret_a, a, secret_b);
    lemma_mul_commutes(secret_a, a);
    lemma_mul_commutes(spec_mul(a, secret_a), secret_b);
}

} // verus!
