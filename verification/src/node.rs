//! Error routing for a node's per-device streaming workers.
//!
//! A worker that fails while streaming has failed in one of two ways, and
//! they are handled differently: a broken transport poisons the connection
//! for every sibling worker, while a broken camera only silences its own
//! feed.

use crate::device::DeviceId;
use vstd::prelude::*;

verus! {

/// The kernel's code for a device that was physically removed.
pub const DEVICE_GONE_ERRNO: i32 = 19;

/// A device-gone error during teardown is an expected lifecycle event and is
/// swallowed; any other teardown failure signals buffer or queue corruption
/// and must abort loudly.
pub fn is_device_gone_error(code: i32) -> (r: bool)
    ensures
        r == (code == DEVICE_GONE_ERRNO),
{
    code == 19
}

/// Why a streaming worker stopped.
#[derive(Copy, Clone, PartialEq, Eq, Structural, Debug)]
pub enum OrbitError {
    /// Writing to the coordinator failed: the connection is unusable for
    /// every worker sharing it.
    TcpStreamFailed,
    /// The camera failed (commonly: it was unplugged); only this feed ends.
    WebcamFailed,
}

/// What the supervisor does about a failed worker.
#[derive(Copy, Clone, PartialEq, Eq, Structural, Debug)]
pub enum FailureAction {
    /// Raise the shared stop flag: every sibling worker of this connection
    /// winds down.
    StopAllStreams,
    /// Tell the coordinator this one device's preview ended.
    SendStopNotice(DeviceId),
}

/// Routes a worker failure: a transport failure stops all streaming on the
/// connection (nothing can be reported over a broken socket), while a camera
/// failure is reported as a stop notice for just that device.
pub fn stream_failure_action(error: OrbitError, device_id: DeviceId) -> (r: FailureAction)
    ensures
        error is TcpStreamFailed <==> r is StopAllStreams,
        error is WebcamFailed <==> r == FailureAction::SendStopNotice(device_id),
{
    match error {
        OrbitError::TcpStreamFailed => FailureAction::StopAllStreams,
        OrbitError::WebcamFailed => FailureAction::SendStopNotice(device_id),
    }
}

} // verus!
