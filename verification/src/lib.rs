//! Adapter between process environment variables and a hierarchical
//! configuration system.
//!
//! Keys produced by an environment reader use plain numeric path segments
//! (`A.B.0`); the configuration system expects array indices in bracket
//! notation (`A.B[0]`). The `keys` module holds the verified rewriting of
//! one form into the other; the `source` module wraps the reader and applies
//! the rewriting to every collected key.

pub mod keys;
pub mod source;

pub use source::AzureEnvironment;
