//! Reproducibility checking for content-addressed package builds: the
//! decisions of the verification pipeline, the content-addressed store's
//! naming, and the shapes of the build log.
pub mod cas;
pub mod check;
pub mod cli;
pub mod derivation;
pub mod digest;
pub mod diffoscope;
pub mod eval;
pub mod messages;
pub mod report;
pub mod store;
pub mod text;
pub mod workqueue;
