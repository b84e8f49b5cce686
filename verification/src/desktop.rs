//! Arguments of the desktop's device commands, as the renderer sends them.
//! Every mutating command carries a caller-stable request id.

use vstd::prelude::*;

verus! {

/// Arguments of a checkout creation.
#[derive(Debug)]
pub struct DeviceCheckoutArgs {
    /// Tank identity.
    pub tank_id: String,
    /// Selected host.
    pub device_id: String,
    /// Device pubkey hex.
    pub device_pubkey: String,
    /// Canonical repository identity.
    pub repository_id: String,
    /// Branch.
    pub branch: String,
    /// Checkout relpath.
    pub relpath: String,
    /// Caller-stable request id.
    pub request_id: String,
    /// Grant generation.
    pub grant_generation: u64,
}

/// Arguments of a session start.
#[derive(Debug)]
pub struct DeviceStartArgs {
    /// Tank identity.
    pub tank_id: String,
    /// Selected host.
    pub device_id: String,
    /// Device pubkey hex.
    pub device_pubkey: String,
    /// Host checkout path.
    pub checkout_path: String,
    /// Creature instance.
    pub instance_id: String,
    /// Caller-stable request id.
    pub request_id: String,
    /// Grant generation.
    pub grant_generation: u64,
}

/// Arguments of a session cancellation.
#[derive(Debug)]
pub struct DeviceCancelArgs {
    /// Selected host.
    pub device_id: String,
    /// Device pubkey hex.
    pub device_pubkey: String,
    /// Session id from start.
    pub session_id: String,
    /// Caller-stable request id.
    pub request_id: String,
    /// Grant generation.
    pub grant_generation: u64,
}

} // verus!
