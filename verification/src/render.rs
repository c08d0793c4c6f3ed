//! Text renderings of ring elements, bit vectors and shares.

use vstd::prelude::*;
use crate::exchange::PartyShare;
use crate::modular::N;
use crate::ring::RingElement;
use crate::signal::SignalVector;

verus! {

/// The sixteen hexadecimal digits, in lower case.
pub open spec fn hex_digits() -> Seq<char> {
    seq!['0', '1', '2', '3', '4', '5', '6', '7', '8', '9', 'a', 'b', 'c', 'd', 'e', 'f']
}

/// Two hexadecimal digits per entry of `s`, the high digit first, in the order
/// of `s`.
pub open spec fn spec_hex(s: Seq<int>) -> Seq<char> {
    Seq::new(
        2 * s.len(),
        |i: int|
            if i % 2 == 0 {
                hex_digits()[s[i / 2] / 16]
            } else {
                hex_digits()[s[i / 2] % 16]
            },
    )
}

/// One glyph per bit of `s`: a star for a true bit, a blank for a false one.
pub open spec fn spec_glyphs(s: Seq<bool>) -> Seq<char> {
    Seq::new(
        s.len(),
        |i: int|
            if s[i] {
                '*'
            } else {
                ' '
            },
    )
}

/// The three labelled lines of a share: secret, noise and public share, each
/// in hexadecimal.
pub open spec fn spec_share_text(secret: Seq<int>, noise: Seq<int>, public: Seq<int>) -> Seq<
    char,
> {
    "         s: "@ + spec_hex(secret) + "\n"@ + "         e: "@ + spec_hex(noise) + "\n"@
        + "         p: "@ + spec_hex(public) + "\n"@
}

/// The hexadecimal digit of a value below sixteen.
fn hex_digit(v: u8) -> (d: &'static str)
    requires
        v < 16,
    ensures
        d@ == seq![hex_digits()[v as int]],
{
    proof {
        reveal_strlit("0");
        reveal_strlit("1");
        reveal_strlit("2");
        reveal_strlit("3");
        reveal_strlit("4");
        reveal_strlit("5");
        reveal_strlit("6");
        reveal_strlit("7");
        reveal_strlit("8");
        reveal_strlit("9");
        reveal_strlit("a");
        reveal_strlit("b");
        reveal_strlit("c");
        reveal_strlit("d");
        reveal_strlit("e");
        reveal_strlit("f");
    }
    match v {
        0 => "0",
        1 => "1",
        2 => "2",
        3 => "3",
        4 => "4",
        5 => "5",
        6 => "6",
        7 => "7",
        8 => "8",
        9 => "9",
        10 => "a",
        11 => "b",
        12 => "c",
        13 => "d",
        14 => "e",
        _ => "f",
    }
}

/// The glyph of a bit.
fn glyph(bit: bool) -> (g: &'static str)
    ensures
        g@ == seq![if bit {
            '*'
        } else {
            ' '
        }],
{
    proof {
        reveal_strlit("*");
        reveal_strlit(" ");
    }
    if bit {
        "*"
    } else {
        " "
    }
}

impl RingElement {
    /// The coefficients in hexadecimal: two digits each, in stored order.
    pub fn to_string(&self) -> (text: String)
        ensures
            text@ == spec_hex(self@),
    {
        let c = self.coeffs();
        let mut text = String::new();
        let mut i: usize = 0;
        while i < N
            invariant
                i <= N,
                self@.len() == N,
                forall|j: int| 0 <= j < N ==> #[trigger] self@[j] == c@[j] as int,
                text@ == spec_hex(self@.take(i as int)),
            decreases N - i,
        {
            text.append(hex_digit(c[i] / 16));
            text.append(hex_digit(c[i] % 16));
            assert(text@ =~= spec_hex(self@.take(i + 1)));
            i += 1;
        }
        assert(self@.take(N as int) =~= self@);
        text
    }
}

impl SignalVector {
    /// One glyph per bit, in stored order: a star for a true bit, a blank for
    /// a false one.
    pub fn to_string(&self) -> (text: String)
        ensures
            text@ == spec_glyphs(self@),
    {
        let mut text = String::new();
        let mut i: usize = 0;
        while i < N
            invariant
                i <= N,
                text@ == spec_glyphs(self@.take(i as int)),
            decreases N - i,
        {
            text.append(glyph(self.bits[i]));
            assert(text@ =~= spec_glyphs(self@.take(i + 1)));
            i += 1;
        }
        assert(self@.take(N as int) =~= self@);
        text
    }
}

impl PartyShare {
    /// The share as three labelled lines: secret, noise and public share.
    pub fn to_string(&self) -> (text: String)
        ensures
            text@ == spec_share_text(self.secret@, self.noise@, self.public@),
    {
        let mut text = String::new();
        text.append("         s: ");
        text.append(self.secret.to_string().as_str());
        text.append("\n");
        text.append("         e: ");
        text.append(self.noise.to_string().as_str());
        text.append("\n");
        text.append("         p: ");
        text.append(self.public.to_string().as_str());
        text.append("\n");
        assert(text@ =~= spec_share_text(self.secret@, self.noise@, self.public@));
        text
    }
}

} // verus!
