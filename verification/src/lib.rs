//! A declarative API test runner: plans describe one HTTP request each,
//! with expectations on the JSON envelope the service answers with and
//! optional capture of response fields into variables for later plans.
//! The engine substitutes `$NAME` tokens into request text, classifies
//! what the dispatch process returned, validates the response under
//! typed comparison rules, and applies assignments to a variable store
//! threaded through the run.  Dispatch itself — spawning the external
//! process — is left to the caller.

pub mod compare;
pub mod engine;
pub mod errors;
pub mod json;
pub mod laws;
pub mod numbers;
pub mod plan;
pub mod subst;
pub mod text;
pub mod vars;
