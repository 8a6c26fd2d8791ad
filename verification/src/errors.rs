//! Error taxonomy of the library.
//!
//! Per-request errors (`OpError`) are returned synchronously by the
//! dispatcher and never crash the server; a failed table read is fatal
//! for that one device only; a device-level failure is reported by the
//! disk window to its caller.

use vstd::prelude::*;

verus! {

/// A per-request failure of a dispatcher operation.
#[derive(Clone, Copy, Debug, PartialEq, Eq, Structural)]
pub enum OpError {
    /// The request named a resource id that is not currently open.
    BadHandle,
    /// The operation is not permitted on this kind of resource
    /// (for example a write or truncate on a directory snapshot).
    Unsupported,
    /// A data read was requested on a resource opened without a
    /// materialized listing.
    IsDirectory,
    /// A request argument is out of the accepted range
    /// (for example an unknown seek mode).
    InvalidArgument,
}

/// The partition table of one device could not be read. That device is
/// skipped; discovery continues with the remaining devices.
#[derive(Debug, PartialEq, Eq)]
pub struct TableReadError {
    /// What the table parser reported, for logging by the caller.
    pub msg: String,
}

/// A failure of the underlying block device during a windowed access.
#[derive(Clone, Copy, Debug, PartialEq, Eq, Structural)]
pub enum DiskError {
    /// The device reported an input/output failure.
    Io,
}

} // verus!
