use rlwe_kex::exchange::PartyShare;
use rlwe_kex::modular::N;
use rlwe_kex::ring::RingElement;
use rlwe_kex::signal::SignalVector;

#[test]
fn zero_renders_as_zeros() {
    assert_eq!(RingElement::default().to_string(), "00".repeat(N));
}

#[test]
fn coefficients_render_as_two_lowercase_hex_digits() {
    let mut c = [0u8; N];
    c[0] = 250;
    c[1] = 9;
    c[2] = 10;
    c[3] = 16;
    c[4] = 175;
    c[127] = 1;
    let text = RingElement::from_coeffs(c).expect("reduced").to_string();
    assert_eq!(text.len(), 2 * N);
    assert_eq!(&text[..10], "fa090a10af");
    assert_eq!(&text[10..254], "00".repeat(122));
    assert_eq!(&text[254..], "01");
}

#[test]
fn every_coefficient_value_renders_like_std_formatting() {
    for base in [0usize, 123] {
        let mut c = [0u8; N];
        for (i, x) in c.iter_mut().enumerate() {
            *x = (base + i) as u8;
        }
        let mut expected = String::new();
        for x in c {
            expected.push_str(&format!("{:02x}", x));
        }
        assert_eq!(RingElement::from_coeffs(c).expect("reduced").to_string(), expected);
    }
}

#[test]
fn bits_render_as_stars_and_blanks() {
    assert_eq!(SignalVector::default().to_string(), " ".repeat(N));
    assert_eq!(SignalVector { bits: [true; N] }.to_string(), "*".repeat(N));
    let mut bits = [false; N];
    bits[0] = true;
    bits[2] = true;
    bits[127] = true;
    let text = SignalVector { bits }.to_string();
    assert_eq!(&text[..4], "* * ");
    assert_eq!(&text[4..127], " ".repeat(123));
    assert_eq!(&text[127..], "*");
}

#[test]
fn share_renders_as_three_labelled_lines() {
    let mut c = [0u8; N];
    c[N - 1] = 1;
    let one = RingElement::from_coeffs(c).expect("reduced");
    c[N - 1] = 3;
    let three = RingElement::from_coeffs(c).expect("reduced");
    let share = PartyShare::from_parts(&one, three, one);
    let expected = format!(
        "         s: {}03\n         e: {}01\n         p: {}05\n",
        "00".repeat(N - 1),
        "00".repeat(N - 1),
        "00".repeat(N - 1)
    );
    assert_eq!(share.to_string(), expected);
}
