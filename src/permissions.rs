//! The local-network permission capability.
use vstd::prelude::*;

use crate::ssdp::DiscoveryError;

verus! {

/// Whether the platform lets this process use the local network.
#[derive(Debug, Clone, Copy, PartialEq, Eq, Structural)]
pub enum PermissionState {
    Granted,
    Denied,
    Unknown,
    NeedsRequest,
}

/// Why a permission request did not end in a grant.
#[derive(Debug, Clone)]
pub enum PermissionError {
    Denied,
    SystemError(String),
    UserAborted,
}

/// The permission state on platforms without a local-network gate: granted.
pub fn check_local_network_permission() -> (r: PermissionState)
    ensures
        r == PermissionState::Granted,
{
    PermissionState::Granted
}

/// Asks for the permission on platforms without a local-network gate: granted at once.
pub fn request_permission_interactive() -> (r: Result<PermissionState, PermissionError>)
    ensures
        r matches Ok(s) && s == PermissionState::Granted,
{
    Ok(PermissionState::Granted)
}

/// The permission state that a multicast capability test shows on platforms with a gate:
/// success is a grant, a permission failure a denial, any other failure leaves it unknown.
pub fn permission_from_multicast_test(test: &Result<(), DiscoveryError>) -> (r: PermissionState)
    ensures
        match test {
            Ok(()) => r == PermissionState::Granted,
            Err(DiscoveryError::PermissionDenied) => r == PermissionState::Denied,
            Err(_) => r == PermissionState::Unknown,
        },
{
    match test {
        Ok(()) => PermissionState::Granted,
        Err(DiscoveryError::PermissionDenied) => PermissionState::Denied,
        Err(_) => PermissionState::Unknown,
    }
}

} // verus!
