//! The replication game: a prover answers an authenticated challenge seed with
//! a proof of replication, and a judge checks the answer.
//!
//! - [`seed`] issues and authenticates seeds under a secret key.
//! - [`params`] derives the primitive's setup from a proof configuration.
//! - [`orchestrator`] takes a proving run from seed to artifact.
//! - [`validator`] checks a submitted artifact.
//! - [`codec`] writes an artifact as text and reads it back.
//!
//! The proving primitive itself is not part of the library. The library says
//! what to ask of it, step by step, and decides on what it answers.

pub mod artifact;
pub mod clock;
pub mod codec;
pub mod decimal;
pub mod error;
pub mod hex_text;
pub mod mac;
pub mod orchestrator;
pub mod params;
pub mod primitive;
pub mod replica;
pub mod seed;
pub mod text;
pub mod validator;
