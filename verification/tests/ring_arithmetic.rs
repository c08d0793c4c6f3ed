use rand::rngs::StdRng;
use rand::SeedableRng;
use rlwe_kex::modular::{modulo_add, modulo_add64, CONV_LEN, N, Q};
use rlwe_kex::ring::RingElement;

fn element(f: fn(usize) -> u8) -> RingElement {
    let mut c = [0u8; N];
    for (i, x) in c.iter_mut().enumerate() {
        *x = f(i);
    }
    RingElement::from_coeffs(c).expect("coefficients are reduced")
}

fn monomial(position: usize, value: u8) -> RingElement {
    let mut c = [0u8; N];
    c[position] = value;
    RingElement::from_coeffs(c).expect("coefficient is reduced")
}

/// The product by degree, computed in double precision: the full convolution
/// first, then the fold under x^128 = -1, then the reduction modulo Q.
fn reference_product(a: &[u8; N], b: &[u8; N]) -> [u8; N] {
    let mut conv = [0f64; CONV_LEN];
    for i in 0..N {
        for j in 0..N {
            // degree of position p is N - 1 - p
            conv[(N - 1 - i) + (N - 1 - j)] += f64::from(a[i]) * f64::from(b[j]);
        }
    }
    let mut out = [0u8; N];
    for k in 0..N {
        let high = if k + N < CONV_LEN { conv[k + N] } else { 0.0 };
        let folded = (conv[k] - high).rem_euclid(f64::from(Q));
        out[N - 1 - k] = folded as u8;
    }
    out
}

#[test]
fn modulus_and_sizes() {
    assert_eq!(Q, 251);
    assert_eq!(N, 128);
    assert_eq!(CONV_LEN, 255);
}

#[test]
fn modulo_add_wraps_at_the_modulus() {
    assert_eq!(modulo_add(0, 0), 0);
    assert_eq!(modulo_add(250, 1), 0);
    assert_eq!(modulo_add(250, 250), 249);
    assert_eq!(modulo_add(255, 255), 8);
    assert_eq!(modulo_add(100, 50), 150);
}

#[test]
fn modulo_add64_reduces_wide_sums() {
    assert_eq!(modulo_add64(0, 0), 0);
    assert_eq!(modulo_add64(250, 65025), 15);
    assert_eq!(modulo_add64(0, 251), 0);
    assert_eq!(modulo_add64(0, 62500), 1);
    assert_eq!(modulo_add64(4_000_000_000, 294_967_295), 122);
}

#[test]
fn from_coeffs_accepts_only_reduced_coefficients() {
    let mut c = [250u8; N];
    assert!(RingElement::from_coeffs(c).is_some());
    c[77] = 251;
    assert!(RingElement::from_coeffs(c).is_none());
    c[77] = 0;
    c[127] = 255;
    assert!(RingElement::from_coeffs(c).is_none());
    c[127] = 0;
    c[0] = 251;
    assert!(RingElement::from_coeffs(c).is_none());
}

#[test]
fn coeffs_returns_what_was_stored() {
    let a = element(|i| (i * i % 251) as u8);
    let c = a.coeffs();
    for i in 0..N {
        assert_eq!(c[i], (i * i % 251) as u8);
    }
}

#[test]
fn default_is_zero() {
    assert_eq!(RingElement::default().coeffs(), [0u8; N]);
}

#[test]
fn add_assign_adds_coefficientwise() {
    let mut a = element(|i| ((i * i + 3) % 251) as u8);
    let b = element(|i| ((3 * i + 7) % 251) as u8);
    a.add_assign(b);
    let c = a.coeffs();
    assert_eq!(&c[..5], &[10, 14, 20, 28, 38]);
    for i in 0..N {
        assert_eq!(u32::from(c[i]), ((i * i + 3) % 251 + (3 * i + 7) % 251) as u32 % 251);
    }
    let mut top = element(|_| 250);
    top.add_assign(element(|_| 250));
    assert_eq!(top.coeffs(), [249u8; N]);
}

#[test]
fn sub_assign_subtracts_coefficientwise() {
    let mut a = element(|_| 3);
    a.sub_assign(element(|_| 5));
    assert_eq!(a.coeffs(), [249u8; N]);
    let mut z = RingElement::default();
    z.sub_assign(element(|_| 250));
    assert_eq!(z.coeffs(), [1u8; N]);
    let mut s = element(|_| 250);
    s.sub_assign(RingElement::default());
    assert_eq!(s.coeffs(), [250u8; N]);
}

#[test]
fn mul_assign_scales_coefficientwise() {
    let mut a = element(|i| ((i * i + 3) % 251) as u8);
    a.mul_assign(2);
    assert_eq!(&a.coeffs()[..5], &[6, 8, 14, 24, 38]);
    let mut b = element(|_| 250);
    b.mul_assign(255);
    assert_eq!(b.coeffs(), [247u8; N]);
    let mut c = element(|i| (i % 251) as u8);
    c.mul_assign(0);
    assert_eq!(c.coeffs(), [0u8; N]);
}

#[test]
fn results_stay_below_the_modulus() {
    let mut rng = StdRng::seed_from_u64(11);
    for _ in 0..20 {
        let a = RingElement::random(&mut rng);
        let b = RingElement::random(&mut rng);
        let mut sum = a;
        sum.add_assign(b);
        let mut diff = a;
        diff.sub_assign(b);
        let mut scaled = a;
        scaled.mul_assign(b.coeffs()[0]);
        let product = a.mul(&b);
        for r in [sum, diff, scaled, product] {
            assert!(r.coeffs().iter().all(|&c| c < Q));
        }
    }
}

#[test]
fn subtracting_what_was_added_restores_the_element() {
    let mut rng = StdRng::seed_from_u64(5);
    for _ in 0..50 {
        let a = RingElement::random(&mut rng);
        let b = RingElement::random(&mut rng);
        let mut r = a;
        r.add_assign(b);
        r.sub_assign(b);
        assert_eq!(r, a);
    }
    let mut edge = element(|_| 250);
    edge.add_assign(element(|_| 250));
    edge.sub_assign(element(|_| 250));
    assert_eq!(edge.coeffs(), [250u8; N]);
}

#[test]
fn the_constant_one_is_the_identity() {
    let one = monomial(N - 1, 1);
    let a = element(|i| ((7 * i + 1) % 251) as u8);
    assert_eq!(a.mul(&one), a);
    assert_eq!(one.mul(&a), a);
}

#[test]
fn zero_annihilates() {
    let a = element(|i| ((7 * i + 1) % 251) as u8);
    assert_eq!(a.mul(&RingElement::default()), RingElement::default());
}

#[test]
fn the_top_degree_squared_folds_with_a_sign() {
    // x^127 * x^127 = x^254 = -x^126
    let top = monomial(0, 1);
    assert_eq!(top.mul(&top), monomial(1, 250));
}

#[test]
fn x_times_the_top_degree_is_minus_one() {
    // x * x^127 = x^128 = -1
    let x = monomial(N - 2, 1);
    let top = monomial(0, 1);
    assert_eq!(x.mul(&top), monomial(N - 1, 250));
    assert_eq!(top.mul(&x), monomial(N - 1, 250));
}

#[test]
fn multiplying_by_x_shifts_and_negates_the_overflow() {
    let x = monomial(N - 2, 1);
    let a = element(|i| (i + 1) as u8);
    let r = a.mul(&x).coeffs();
    // position 0 of `a` holds degree 127, which wraps to degree 0 negated
    for p in 0..N - 1 {
        assert_eq!(r[p], (p + 2) as u8);
    }
    assert_eq!(r[N - 1], 250);
}

#[test]
fn product_of_two_fixed_elements() {
    let a = element(|i| ((i * i + 3) % 251) as u8);
    let b = element(|i| ((3 * i + 7) % 251) as u8);
    let expected: [u8; N] = [
        217, 57, 234, 197, 136, 229, 140, 23, 20, 10, 111, 178, 54, 72, 51, 49, 112, 23, 55, 218,
        8, 164, 158, 203, 249, 234, 84, 215, 27, 163, 250, 154, 231, 72, 9, 111, 184, 22, 160,
        117, 153, 14, 187, 143, 94, 240, 16, 100, 154, 79, 15, 90, 169, 105, 241, 155, 166, 79,
        189, 26, 112, 204, 47, 127, 165, 121, 194, 69, 172, 164, 196, 156, 171, 105, 61, 130, 140,
        158, 239, 175, 248, 226, 116, 164, 102, 152, 22, 161, 2, 221, 227, 170, 188, 156, 188,
        135, 87, 122, 55, 191, 70, 224, 169, 162, 197, 5, 58, 63, 217, 203, 194, 100, 70, 241,
        236, 168, 138, 235, 34, 102, 241, 241, 131, 179, 139, 4, 6, 114,
    ];
    assert_eq!(a.mul(&b).coeffs(), expected);
}

#[test]
fn product_matches_the_double_precision_reference() {
    let mut rng = StdRng::seed_from_u64(2024);
    for _ in 0..25 {
        let a = RingElement::random(&mut rng);
        let b = RingElement::random(&mut rng);
        assert_eq!(a.mul(&b).coeffs(), reference_product(&a.coeffs(), &b.coeffs()));
    }
    let top = element(|_| 250);
    assert_eq!(top.mul(&top).coeffs(), reference_product(&top.coeffs(), &top.coeffs()));
}

#[test]
fn product_commutes() {
    let mut rng = StdRng::seed_from_u64(99);
    for _ in 0..25 {
        let a = RingElement::random(&mut rng);
        let b = RingElement::random(&mut rng);
        assert_eq!(a.mul(&b), b.mul(&a));
    }
}

#[test]
fn random_elements_are_reduced_and_follow_the_seed() {
    let a = RingElement::random(&mut StdRng::seed_from_u64(1));
    let b = RingElement::random(&mut StdRng::seed_from_u64(1));
    let c = RingElement::random(&mut StdRng::seed_from_u64(2));
    assert_eq!(a, b);
    assert_ne!(a, c);
    assert!(a.coeffs().iter().all(|&x| x < Q));
    assert!(a.coeffs().iter().any(|&x| x != a.coeffs()[0]));
}

#[test]
fn product_associates() {
    let mut rng = StdRng::seed_from_u64(7);
    for _ in 0..15 {
        let a = RingElement::random(&mut rng);
        let b = RingElement::random(&mut rng);
        let c = RingElement::random(&mut rng);
        assert_eq!(a.mul(&b).mul(&c), a.mul(&b.mul(&c)));
    }
}

#[test]
fn product_distributes_over_the_sum() {
    let mut rng = StdRng::seed_from_u64(8);
    for _ in 0..15 {
        let s = RingElement::random(&mut rng);
        let x = RingElement::random(&mut rng);
        let y = RingElement::random(&mut rng);
        let mut sum = x;
        sum.add_assign(y);
        let mut expected = s.mul(&x);
        expected.add_assign(s.mul(&y));
        assert_eq!(s.mul(&sum), expected);
    }
}
