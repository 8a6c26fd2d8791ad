//! A FAT partition server library: partition-windowed disk access, a
//! per-mount resource table with a request dispatcher, and the
//! launcher/daemon readiness handshake.

pub mod daemon;
pub mod device;
pub mod discovery;
pub mod errors;
pub mod partition;
pub mod resource;
pub mod scheme;

use vstd::prelude::*;

verus! {

/// Bytes per disk sector; logical block addresses count sectors of this size.
pub const SECTORSIZE: u32 = 512;

} // verus!
