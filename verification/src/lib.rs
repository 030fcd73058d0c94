//! Reeve: an allowlist-first runtime for shell automation.
//!
//! The library holds the policy side of the runtime: the pact schema, the
//! allowlist engine that checks a requested command line against a pact, the
//! value kinds, the post-parse validation of pacts, the embedded presets, and
//! the pure decisions that the host functions make (workspace path checks,
//! size guards, error classification, audit event construction).
pub mod strs;
pub mod pact;
pub mod runtime;
pub mod security;
