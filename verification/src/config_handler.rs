//! The host's own identity, as the boundary layer reports it.
//!
//! Filling these fields means asking the operating system (addresses,
//! platform name, a fresh UUID), which happens outside the library; the
//! shape itself and what the engine may assume of it live here.

use vstd::prelude::*;

verus! {

/// Self-description of the host the engine runs on.
#[derive(Debug, Clone)]
pub struct ConfigHandler {
    pub uuid: String,
    pub ip_address: String,
    pub platform: String,
    pub templates_loc: String,
    pub mac_address: String,
    pub version: String,
}

} // verus!
