//! The reeve home directory: `<home>/workspace` for script files and
//! `<home>/runs` for audit logs.
use vstd::prelude::*;

verus! {

/// The home directory could not be created; the message says why.
#[derive(Debug)]
pub enum HomeInitError {
    Io(String),
}

} // verus!
