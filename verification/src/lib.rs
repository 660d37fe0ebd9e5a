//! A non-interactive zero-knowledge proof that a public commitment and a
//! public ElGamal-style ciphertext hide the same secret scalar.
//!
//! The proof is a Sigma protocol made non-interactive by the Fiat-Shamir
//! transform. The protocol is written once, over the capabilities in
//! [`group`], and its contracts are stated over the canonical encodings of
//! group elements and the residues of scalars. [`jubjub`] supplies those
//! capabilities for the Jubjub curve, on top of the arkworks arithmetic.

pub mod algebra;
pub mod error;
pub mod group;
pub mod hash;
pub mod jubjub;
pub mod laws;
pub mod protocol;

pub use error::Error;
pub use group::{Encode, Group, RandomnessSource, Scalar};
pub use hash::shake128;
pub use jubjub::{Jubjub, JubjubAffine, JubjubScalar};
pub use protocol::{Ciphertext, Commitment, ElGamalSigmaProtocol, Params, PoK};
