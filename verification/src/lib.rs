//! A streaming byte-substitution cipher: a case-preserving alphabetic
//! rotation (ROT13 by default, rotate-by-N on request) applied to a byte
//! stream one buffer at a time.

pub mod ascii;
pub mod policy;
pub mod transform;
