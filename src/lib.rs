//! Size bookkeeping, transcript framing and the structural checks of a
//! two-phase trusted-setup ceremony for Groth16 parameters.
//!
//! Group and field arithmetic (scalar multiplication, pairings, the inverse
//! Fourier transform over group elements, point compression) belongs to a
//! pairing library and is not part of this crate: here group elements are
//! carried as their fixed-size byte encodings.

pub mod error;
pub mod layout;
pub mod codec;
pub mod accumulator;
pub mod basis;
pub mod phase2;
pub mod batch;
pub mod srs;
pub mod prepare;
