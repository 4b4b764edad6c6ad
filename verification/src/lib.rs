//! A deferred action chain engine for stateful actors.
//!
//! An actor's invocation runs to completion and may, while it runs, build
//! ordered chains of operations against other actors, reserve a slice of its
//! execution budget for each of them, and bind a continuation that receives
//! the chain's eventual result. The host that executes the chains is not part
//! of this crate: it is handed finalized chains and reports back what happened.
pub mod error;
pub mod budget;
pub mod identity;
pub mod continuation;
pub mod chain;
pub mod run;
pub mod injector;
pub mod counter;
pub mod postbox;
