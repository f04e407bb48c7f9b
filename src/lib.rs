//! Discovery of UPnP/DLNA media servers on the local network, and browsing of their
//! ContentDirectory catalogs.
//!
//! The library holds the protocol logic: SSDP requests and responses, the port scan's
//! targets and verdicts, device descriptions, the SOAP `Browse` exchange, DIDL-Lite listings,
//! the index from navigation paths to container identifiers, and the discovery session that
//! merges what the probes find. Sockets, HTTP and threads stay with the caller, which hands
//! the library what arrived and does what it answers.
use vstd::prelude::*;

pub mod text;
pub mod xml;
pub mod url_parts;
pub mod didl;
pub mod soap;
pub mod path_index;
pub mod browse;
pub mod descriptor;
pub mod ssdp;
pub mod scan;
pub mod permissions;
pub mod discovery;
pub mod network;
pub mod logging;
pub mod config;

verus! {

} // verus!
