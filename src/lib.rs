//! Randomart fingerprints: a biased walk over a small grid, seeded by a
//! digest of the input, and two renderers for the resulting histogram.

pub mod walk;
pub mod fingerprint;
pub mod render;
pub mod pubkey;
pub mod laws;
