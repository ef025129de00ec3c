//! The fixed policy for attaching the pseudo-terminal follower device as an
//! AX.25 network interface, and the interpretation of the attach facility's
//! result code.

use vstd::prelude::*;

verus! {

/// Link speed handed to the attach facility. Fixed by policy, not
/// user-configurable: the conventional default for the target modem class.
pub const ATTACH_SPEED: i32 = 9600;

/// Everything the attach facility is called with besides the station
/// identifier and the follower device path.
pub struct AttachParams {
    /// Link speed in baud.
    pub speed: i32,
    /// Maximum transmission unit of the interface.
    pub mtu: i32,
    /// Whether broadcast traffic is permitted on the interface.
    pub allow_broadcast: bool,
}

/// Builds the attachment parameters for a user-supplied MTU: the speed is
/// fixed at 9600 baud and broadcast is always allowed.
pub fn attach_params(mtu: i32) -> (p: AttachParams)
    ensures
        p.speed == ATTACH_SPEED,
        p.mtu == mtu,
        p.allow_broadcast,
{
    AttachParams { speed: ATTACH_SPEED, mtu, allow_broadcast: true }
}

/// Interprets the attach facility's result: any non-zero code is success,
/// zero is failure (and failure is fatal to the caller).
pub fn attach_succeeded(code: i32) -> (ok: bool)
    ensures
        ok == (code != 0),
{
    code != 0
}

} // verus!
