//! Pacts: the allowlist policy that every `exec` request is checked against.
pub mod engine;
pub mod kinds;
pub mod parse;
pub mod presets;
pub mod schema;
pub mod table;
