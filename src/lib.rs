//! A two-phase builder for transparent-extension (TZE) inputs and outputs.
//!
//! Inputs and outputs are accumulated into an unauthorized bundle; each input
//! carries a deferred witness computation that is resolved, in input order,
//! once the final transaction context exists.

pub mod amount;
pub mod bundle;
pub mod builder;
pub mod lemmas;
