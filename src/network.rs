//! Local network interfaces: choosing the one to scan from and the /24 network it sits on.
use vstd::prelude::*;

use crate::text::{concat, decimal, decimal_string};

verus! {

/// Why no interface could be used.
#[derive(Debug, Clone)]
pub enum NetworkError {
    EnumerationFailed(String),
    TestFailed(String),
    NoValidInterfaces,
}

impl NetworkError {
    /// A line that tells the user what went wrong.
    pub fn describe(&self) -> (r: String)
        ensures
            match self {
                NetworkError::EnumerationFailed(e) => r@ == "Failed to enumerate network interfaces: "@ + e@,
                NetworkError::TestFailed(e) => r@ == "Network interface test failed: "@ + e@,
                NetworkError::NoValidInterfaces => r@ == "No valid network interfaces found"@,
            },
    {
        match self {
            NetworkError::EnumerationFailed(e) => concat("Failed to enumerate network interfaces: ", e.as_str()),
            NetworkError::TestFailed(e) => concat("Network interface test failed: ", e.as_str()),
            NetworkError::NoValidInterfaces => String::from_str("No valid network interfaces found"),
        }
    }
}

/// An IPv4 interface of this host.
#[derive(Debug, Clone)]
pub struct NetworkInterface {
    pub name: String,
    pub octets: [u8; 4],
    pub is_loopback: bool,
    pub supports_multicast: bool,
}

/// An address of the private ranges 10/8, 172.16/12 and 192.168/16.
pub open spec fn is_private_spec(o: [u8; 4]) -> bool {
    o[0] == 10 || (o[0] == 172 && 16 <= o[1] <= 31) || (o[0] == 192 && o[1] == 168)
}

/// Whether an address lies in a private range.
pub fn is_private_ip(octets: [u8; 4]) -> (r: bool)
    ensures
        r == is_private_spec(octets),
{
    octets[0] == 10 || (octets[0] == 172 && 16 <= octets[1] && octets[1] <= 31) || (octets[0] == 192
        && octets[1] == 168)
}

pub open spec fn prefix_spec(o: [u8; 4]) -> Seq<char> {
    decimal(o[0] as nat) + "."@ + decimal(o[1] as nat) + "."@ + decimal(o[2] as nat)
}

/// The /24 network an interface sits on, as `a.b.c`, where its address is private.
pub fn get_local_network_range(interface: &NetworkInterface) -> (r: Option<String>)
    ensures
        is_private_spec(interface.octets) ==> (r matches Some(p) && p@ == prefix_spec(interface.octets)),
        !is_private_spec(interface.octets) ==> r is None,
{
    let o = interface.octets;
    if !is_private_ip(o) {
        return None;
    }
    let a = decimal_string(o[0] as u64);
    let b = decimal_string(o[1] as u64);
    let c = decimal_string(o[2] as u64);
    let ab = concat(a.as_str(), ".");
    let ab = concat(ab.as_str(), b.as_str());
    let abc = concat(ab.as_str(), ".");
    Some(concat(abc.as_str(), c.as_str()))
}

/// An interface fit for discovery: not the loopback one, and able to multicast.
pub open spec fn usable(i: NetworkInterface) -> bool {
    !i.is_loopback && i.supports_multicast
}

/// The first interface fit for discovery, or `NoValidInterfaces`.
pub fn get_primary_interface(interfaces: &Vec<NetworkInterface>) -> (r: Result<
    NetworkInterface,
    NetworkError,
>)
    ensures
        match r {
            Ok(i) => exists|k: int|
                0 <= k < interfaces@.len() && usable(interfaces@[k]) && i.name@ == interfaces@[k].name@
                    && i.octets == interfaces@[k].octets && i.is_loopback == interfaces@[k].is_loopback
                    && i.supports_multicast == interfaces@[k].supports_multicast && forall|j: int|
                    0 <= j < k ==> !usable(#[trigger] interfaces@[j]),
            Err(e) => e is NoValidInterfaces && forall|j: int|
                0 <= j < interfaces@.len() ==> !usable(#[trigger] interfaces@[j]),
        },
{
    let mut k: usize = 0;
    while k < interfaces.len()
        invariant
            k <= interfaces.len(),
            forall|j: int| 0 <= j < k ==> !usable(#[trigger] interfaces@[j]),
        decreases interfaces.len() - k,
    {
        let i = &interfaces[k];
        if !i.is_loopback && i.supports_multicast {
            return Ok(NetworkInterface {
                name: i.name.clone(),
                octets: i.octets,
                is_loopback: i.is_loopback,
                supports_multicast: i.supports_multicast,
            });
        }
        k = k + 1;
    }
    Err(NetworkError::NoValidInterfaces)
}

} // verus!
