//! A merge gate for release attestations: it classifies the files that a
//! change touches and checks that every new attestation is signed by the
//! builder key on file.

pub mod classify;
pub mod fault;
pub mod laws;
pub mod message;
pub mod paths;
pub mod text;
pub mod trust;
