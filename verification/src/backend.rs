//! The status record reported for the local backend server process.
//!
//! Starting, stopping and probing the process is subprocess and HTTP
//! work done by an outer layer; this is the plain value it reports.

use vstd::prelude::*;

verus! {

/// Reported state of the local backend server.
pub struct BackendStatus {
    pub running: bool,
    pub health: bool,
    pub port: u16,
    pub version: String,
}

} // verus!
