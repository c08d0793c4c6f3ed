use rlwe_kex::modular::N;
use rlwe_kex::signal::SignalVector;

fn pattern(f: fn(usize) -> bool) -> SignalVector {
    let mut bits = [false; N];
    for (i, b) in bits.iter_mut().enumerate() {
        *b = f(i);
    }
    SignalVector { bits }
}

#[test]
fn default_vector_is_all_false() {
    assert_eq!(SignalVector::default().bits, [false; N]);
}

#[test]
fn xor_is_bitwise() {
    let a = pattern(|i| i % 2 == 0);
    let b = pattern(|i| i % 3 == 0);
    let r = a.bitxor(&b);
    for i in 0..N {
        assert_eq!(r.bits[i], (i % 2 == 0) != (i % 3 == 0));
    }
    assert!(!r.bits[0]);
    assert!(r.bits[2]);
    assert!(r.bits[3]);
    assert!(!r.bits[5]);
}

#[test]
fn xor_commutes() {
    let a = pattern(|i| i % 2 == 0);
    let b = pattern(|i| i % 5 < 2);
    assert_eq!(a.bitxor(&b), b.bitxor(&a));
}

#[test]
fn xor_with_itself_is_all_false() {
    let a = pattern(|i| i % 7 < 3);
    assert_eq!(a.bitxor(&a), SignalVector::default());
    let ones = SignalVector { bits: [true; N] };
    assert_eq!(ones.bitxor(&ones).bits, [false; N]);
}

#[test]
fn xor_associates() {
    let a = pattern(|i| i % 2 == 0);
    let b = pattern(|i| i % 3 == 0);
    let c = pattern(|i| i % 11 > 4);
    assert_eq!(a.bitxor(&b).bitxor(&c), a.bitxor(&b.bitxor(&c)));
}

#[test]
fn xor_with_all_false_changes_nothing() {
    let a = pattern(|i| i % 7 < 3);
    assert_eq!(a.bitxor(&SignalVector::default()), a);
}

#[test]
fn agreement_is_equality_of_all_bits() {
    let a = pattern(|i| i % 7 < 3);
    let mut b = a;
    assert!(a.agrees_with(&b));
    b.bits[N - 1] = !b.bits[N - 1];
    assert!(!a.agrees_with(&b));
    assert!(!b.agrees_with(&a));
    b.bits[N - 1] = !b.bits[N - 1];
    b.bits[0] = !b.bits[0];
    assert!(!a.agrees_with(&b));
}
