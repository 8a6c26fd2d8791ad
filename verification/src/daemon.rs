//! The readiness handshake between the launcher and the detached server.
//!
//! The server process attempts to mount every matching partition it finds
//! and then reports exactly one byte to its launcher: `0` when at least one
//! partition mounted, a nonzero failure marker otherwise. The launcher
//! exits with `0` on success and with the received marker on failure.
//! The byte transport (the one-shot channel and the fork) is outside this
//! library; the decisions about what to send and how to exit are here.

use vstd::prelude::*;

verus! {

/// The one-byte marker a server writes when at least one partition mounted.
pub const MARKER_SUCCESS: u8 = 0;

/// The default one-byte marker a server writes when nothing mounted.
pub const MARKER_FAILURE: u8 = 1;

/// Whether any partition in the recorded outcomes mounted successfully.
pub open spec fn spec_any_mounted(outcomes: Seq<bool>) -> bool {
    exists|i: int| 0 <= i < outcomes.len() && outcomes[i]
}

/// The marker owed to the launcher for a given overall mount outcome.
pub open spec fn spec_marker(mounted_any: bool) -> u8 {
    if mounted_any {
        MARKER_SUCCESS
    } else {
        MARKER_FAILURE
    }
}

/// Folds the per-partition mount outcomes of one server run into the
/// single question the handshake answers: did anything mount?
pub fn any_mounted(outcomes: &Vec<bool>) -> (r: bool)
    ensures
        r == spec_any_mounted(outcomes@),
{
    let mut i: usize = 0;
    while i < outcomes.len()
        invariant
            0 <= i <= outcomes@.len(),
            forall|j: int| 0 <= j < i ==> !outcomes@[j],
        decreases outcomes@.len() - i,
    {
        if outcomes[i] {
            return true;
        }
        i = i + 1;
    }
    false
}

/// The byte the server sends through the one-shot channel.
pub fn handshake_marker(mounted_any: bool) -> (r: u8)
    ensures
        r == spec_marker(mounted_any),
        (r == 0) <==> mounted_any,
{
    if mounted_any {
        MARKER_SUCCESS
    } else {
        MARKER_FAILURE
    }
}

/// The status the launcher exits with after reading one marker byte:
/// `0` exactly when the marker signalled success, otherwise the received
/// failure marker itself.
pub fn launcher_exit_code(marker: u8) -> (r: i32)
    ensures
        r == marker as i32,
        (r == 0) <==> (marker == 0),
{
    marker as i32
}

/// With zero successful mounts across all discovered devices, the
/// handshake marker is nonzero, and so is the launcher's exit status.
pub proof fn lemma_no_mount_reports_failure(outcomes: Seq<bool>)
    requires
        forall|i: int| 0 <= i < outcomes.len() ==> !outcomes[i],
    ensures
        !spec_any_mounted(outcomes),
        spec_marker(spec_any_mounted(outcomes)) != 0,
{
}

/// With at least one successful mount, the handshake marker is `0`,
/// independent of every other partition's outcome.
pub proof fn lemma_one_mount_reports_success(outcomes: Seq<bool>, i: int)
    requires
        0 <= i < outcomes.len(),
        outcomes[i],
    ensures
        spec_any_mounted(outcomes),
        spec_marker(spec_any_mounted(outcomes)) == 0,
{
}

} // verus!
