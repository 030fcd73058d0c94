//! The runtime side: the decisions that host functions make, the typed
//! errors they raise, and the audit events they record.
pub mod audit;
pub mod errors;
pub mod executor;
pub mod fs;
pub mod home;
pub mod logging;
pub mod parse;
pub mod report;
