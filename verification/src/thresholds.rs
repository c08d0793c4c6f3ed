//! The rounding thresholds that a modulus determines.

use vstd::prelude::*;

verus! {

/// The fractions of a modulus `q` that sampling and rounding compare against,
/// each rounded down.
#[derive(Clone, Copy, Debug, PartialEq, Eq)]
pub struct Thresholds {
    /// `q / 16`, the exclusive bound of a noise coefficient.
    pub q16: u8,
    /// `q / 8`, where the wide band starts.
    pub q18: u8,
    /// `q / 4`, where the central region of the signal starts.
    pub q4: u8,
    /// `3q / 8`, where the narrow band starts.
    pub q38: u8,
    /// `5q / 8`, where the narrow band ends.
    pub q58: u8,
    /// `3q / 4`, where the central region of the signal ends.
    pub q34: u8,
    /// `7q / 8`, where the wide band ends.
    pub q78: u8,
}

/// The signal bit of a coefficient `c` modulo `q`: false in the central region
/// `[q/4, 3q/4)`, true in the two outer regions.
pub open spec fn spec_signal_bit(c: int, q: int) -> bool {
    !(q / 4 <= c < 3 * q / 4)
}

/// The secret bit of a cross coefficient `c` modulo `q` under the signal bit
/// `w`: the bit is false inside the band that `w` selects, the wide band
/// `[q/8, 7q/8)` under a true signal and the narrow band `[3q/8, 5q/8)` under
/// a false one.
pub open spec fn spec_secret_bit(w: bool, c: int, q: int) -> bool {
    if w {
        !(q / 8 <= c < 7 * q / 8)
    } else {
        !(3 * q / 8 <= c < 5 * q / 8)
    }
}

/// Every interval is half open: its lower end lies inside, its upper end
/// outside. This holds of every modulus from 4 on, below which the narrow band
/// may be empty.
pub proof fn lemma_interval_ends(q: int)
    requires
        4 <= q,
    ensures
        !spec_signal_bit(q / 4, q),
        spec_signal_bit(3 * q / 4, q),
        !spec_secret_bit(true, q / 8, q),
        spec_secret_bit(true, 7 * q / 8, q),
        !spec_secret_bit(false, 3 * q / 8, q),
        spec_secret_bit(false, 5 * q / 8, q),
{
}

impl Thresholds {
    /// Whether this is the table of the modulus `q`.
    pub open spec fn derived_from(&self, q: int) -> bool {
        &&& self.q16 == q / 16
        &&& self.q18 == q / 8
        &&& self.q4 == q / 4
        &&& self.q38 == 3 * q / 8
        &&& self.q58 == 5 * q / 8
        &&& self.q34 == 3 * q / 4
        &&& self.q78 == 7 * q / 8
    }

    /// The table of the modulus `q`.
    pub fn for_modulus(q: u8) -> (t: Thresholds)
        ensures
            t.derived_from(q as int),
    {
        let wide: u32 = q as u32;
        Thresholds {
            q16: q / 16,
            q18: q / 8,
            q4: q / 4,
            q38: (3 * wide / 8) as u8,
            q58: (5 * wide / 8) as u8,
            q34: (3 * wide / 4) as u8,
            q78: (7 * wide / 8) as u8,
        }
    }

    /// The signal bit of the coefficient `c`.
    pub fn signal_bit(&self, c: u8) -> (bit: bool)
        ensures
            bit == !(self.q4 <= c < self.q34),
            forall|q: int| self.derived_from(q) ==> bit == spec_signal_bit(c as int, q),
    {
        !(self.q4 <= c && c < self.q34)
    }

    /// The secret bit of the cross coefficient `c` under the signal bit `w`.
    pub fn secret_bit(&self, w: bool, c: u8) -> (bit: bool)
        ensures
            bit == if w {
                !(self.q18 <= c < self.q78)
            } else {
                !(self.q38 <= c < self.q58)
            },
            forall|q: int| self.derived_from(q) ==> bit == spec_secret_bit(w, c as int, q),
    {
        if !w {
            !(self.q38 <= c && c < self.q58)
        } else {
            !(self.q18 <= c && c < self.q78)
        }
    }
}

} // verus!
