//! Sleep-state classification of an intensity reading.
//!
//! An intensity is a single-precision float, carried through this library as
//! its IEEE-754 bit pattern (`f32::to_bits`). The library decides the state,
//! gives its label text, and frames that text as a NUL-terminated buffer for
//! callers across a C boundary.

pub mod float_bits;
pub mod nul_text;
pub mod state;
