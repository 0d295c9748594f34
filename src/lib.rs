//! Generalized Sigma protocols over the Ristretto group: a symbolic algebra of
//! scalars and points, structural reflection of witness and instance records,
//! a Fiat-Shamir transcript, a generic prover and verifier, and a renderer
//! that describes a protocol in LaTeX.
pub mod absorb;
pub mod compiler;
pub mod equations;
pub mod errors;
pub mod group;
pub mod render;
pub mod sigmas;
pub mod transcript;
