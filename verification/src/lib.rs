//! A Ring-LWE key exchange with reconciliation over `Z_Q[x]/(x^128 + 1)`.
//!
//! Two parties share a public ring element, each derives a secret and a
//! public share from it, one of them publishes a signal vector, and both
//! round their own cross product into a bit string under that signal.

pub mod convolution;
pub mod exchange;
pub mod modular;
pub mod negacyclic;
pub mod render;
pub mod ring;
pub mod sampling;
pub mod signal;
pub mod sums;
pub mod thresholds;
