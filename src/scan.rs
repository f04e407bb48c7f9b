//! The port scan: likely hosts and media-server ports on the local /24 network, and what a
//! reply from one of them says.
use vstd::prelude::*;

use crate::browse::{copy_upnp_device, upnp_devices_view, UpnpDevice, UpnpDeviceView};
use crate::descriptor::{content_directory_spec, friendly_name, friendly_name_spec, parse_content_directory_url};
use crate::text::{concat, decimal, decimal_string, str_eq};

verus! {

/// How long one probe waits for a reply, in milliseconds.
pub const PROBE_TIMEOUT_MS: u64 = 400;

/// The port of Plex's DLNA server, which is probed through its device description.
pub const PLEX_DLNA_PORT: u16 = 32469;

/// The number of host suffixes tried.
pub const HOST_SUFFIX_COUNT: usize = 10;

/// The number of ports tried on each host.
pub const PORT_COUNT: usize = 4;

/// The last octet of the hosts tried.
pub open spec fn host_suffix_spec(i: int) -> u8 {
    if i == 0 { 1 }
    else if i == 1 { 2 }
    else if i == 2 { 10 }
    else if i == 3 { 20 }
    else if i == 4 { 21 }
    else if i == 5 { 50 }
    else if i == 6 { 100 }
    else if i == 7 { 150 }
    else if i == 8 { 200 }
    else { 254 }
}

/// The ports tried on each host: Plex, Plex DLNA, Jellyfin, Emby.
pub open spec fn media_port_spec(j: int) -> u16 {
    if j == 0 { 32400 }
    else if j == 1 { 32469 }
    else if j == 2 { 8096 }
    else { 8920 }
}

fn host_suffix(i: usize) -> (r: u8)
    requires
        i < HOST_SUFFIX_COUNT,
    ensures
        r == host_suffix_spec(i as int),
{
    if i == 0 { 1 }
    else if i == 1 { 2 }
    else if i == 2 { 10 }
    else if i == 3 { 20 }
    else if i == 4 { 21 }
    else if i == 5 { 50 }
    else if i == 6 { 100 }
    else if i == 7 { 150 }
    else if i == 8 { 200 }
    else { 254 }
}

fn media_port(j: usize) -> (r: u16)
    requires
        j < PORT_COUNT,
    ensures
        r == media_port_spec(j as int),
{
    if j == 0 { 32400 }
    else if j == 1 { 32469 }
    else if j == 2 { 8096 }
    else { 8920 }
}

/// One host and port to probe.
#[derive(Debug, Clone)]
pub struct ScanTarget {
    pub host: String,
    pub port: u16,
}

pub open spec fn host_spec(prefix: Seq<char>, suffix: u8) -> Seq<char> {
    prefix + "."@ + decimal(suffix as nat)
}

/// Every combination of a likely host of the network `prefix` (three octets, `a.b.c`) and
/// a media-server port: host by host, each with every port.
pub fn scan_targets(prefix: &str) -> (r: Vec<ScanTarget>)
    ensures
        r@.len() == HOST_SUFFIX_COUNT * PORT_COUNT,
        forall|i: int, j: int|
            0 <= i < HOST_SUFFIX_COUNT && 0 <= j < PORT_COUNT ==> (#[trigger] r@[i * 4 + j]).host@
                == host_spec(prefix@, host_suffix_spec(i)) && r@[i * 4 + j].port == media_port_spec(j),
{
    let mut out: Vec<ScanTarget> = Vec::new();
    let mut i: usize = 0;
    while i < HOST_SUFFIX_COUNT
        invariant
            i <= HOST_SUFFIX_COUNT,
            out@.len() == i * 4,
            forall|a: int, b: int|
                0 <= a < i && 0 <= b < PORT_COUNT ==> (#[trigger] out@[a * 4 + b]).host@ == host_spec(
                    prefix@,
                    host_suffix_spec(a),
                ) && out@[a * 4 + b].port == media_port_spec(b),
        decreases HOST_SUFFIX_COUNT - i,
    {
        let dotted = concat(prefix, ".");
        let suffix = decimal_string(host_suffix(i) as u64);
        let host = concat(dotted.as_str(), suffix.as_str());
        let mut j: usize = 0;
        while j < PORT_COUNT
            invariant
                i < HOST_SUFFIX_COUNT,
                j <= PORT_COUNT,
                out@.len() == i * 4 + j,
                host@ == host_spec(prefix@, host_suffix_spec(i as int)),
                forall|a: int, b: int|
                    0 <= a < i && 0 <= b < PORT_COUNT ==> (#[trigger] out@[a * 4 + b]).host@
                        == host_spec(prefix@, host_suffix_spec(a)) && out@[a * 4 + b].port
                        == media_port_spec(b),
                forall|b: int|
                    0 <= b < j ==> (#[trigger] out@[i * 4 + b]).host@ == host_spec(
                        prefix@,
                        host_suffix_spec(i as int),
                    ) && out@[i * 4 + b].port == media_port_spec(b),
            decreases PORT_COUNT - j,
        {
            out.push(ScanTarget { host: host.clone(), port: media_port(j) });
            j = j + 1;
        }
        assert forall|a: int, b: int|
            0 <= a < i + 1 && 0 <= b < PORT_COUNT implies (#[trigger] out@[a * 4 + b]).host@ == host_spec(
                prefix@,
                host_suffix_spec(a),
            ) && out@[a * 4 + b].port == media_port_spec(b) by {
            if a == i {
                assert(out@[i * 4 + b] == out@[a * 4 + b]);
            }
        }
        i = i + 1;
    }
    out
}

pub open spec fn endpoint_spec(host: Seq<char>, port: u16) -> Seq<char> {
    "http://"@ + host + ":"@ + decimal(port as nat)
}

/// `http://host:port`.
pub fn endpoint_url(target: &ScanTarget) -> (r: String)
    ensures
        r@ == endpoint_spec(target.host@, target.port),
{
    let a = concat("http://", target.host.as_str());
    let b = concat(a.as_str(), ":");
    let p = decimal_string(target.port as u64);
    concat(b.as_str(), p.as_str())
}

pub open spec fn description_url_spec(host: Seq<char>, port: u16) -> Seq<char> {
    endpoint_spec(host, port) + "/DeviceDescription.xml"@
}

/// The URLs to probe on a target, in order: the device description on the Plex DLNA port,
/// else the root, `/status` and `/identity`.
pub fn probe_urls(target: &ScanTarget) -> (r: Vec<String>)
    ensures
        target.port == PLEX_DLNA_PORT ==> r@.len() == 1 && r@[0]@ == description_url_spec(
            target.host@,
            target.port,
        ),
        target.port != PLEX_DLNA_PORT ==> r@.len() == 3 && r@[0]@ == endpoint_spec(target.host@, target.port)
            + "/"@ && r@[1]@ == endpoint_spec(target.host@, target.port) + "/status"@ && r@[2]@
            == endpoint_spec(target.host@, target.port) + "/identity"@,
{
    let base = endpoint_url(target);
    let mut out: Vec<String> = Vec::new();
    if target.port == PLEX_DLNA_PORT {
        out.push(concat(base.as_str(), "/DeviceDescription.xml"));
    } else {
        out.push(concat(base.as_str(), "/"));
        out.push(concat(base.as_str(), "/status"));
        out.push(concat(base.as_str(), "/identity"));
    }
    out
}

/// A reply that shows a server present: a success, or 401 (the server asks for
/// credentials, which shows it is there).
pub open spec fn is_presence_status_spec(status: u16) -> bool {
    (200 <= status <= 299) || status == 401
}

/// Whether a reply's status shows a server present.
pub fn is_presence_status(status: u16) -> (r: bool)
    ensures
        r == is_presence_status_spec(status),
{
    (200 <= status && status <= 299) || status == 401
}

/// The kind of server expected on a port.
pub open spec fn server_label_spec(port: u16) -> Seq<char> {
    if port == 32400 {
        "Plex Server"@
    } else if port == 32469 {
        "Plex DLNA Server"@
    } else if port == 8096 {
        "Jellyfin Server"@
    } else if port == 8920 {
        "Emby Server"@
    } else {
        "Media Server"@
    }
}

fn server_label(port: u16) -> (r: String)
    ensures
        r@ == server_label_spec(port),
{
    if port == 32400 {
        String::from_str("Plex Server")
    } else if port == 32469 {
        String::from_str("Plex DLNA Server")
    } else if port == 8096 {
        String::from_str("Jellyfin Server")
    } else if port == 8920 {
        String::from_str("Emby Server")
    } else {
        String::from_str("Media Server")
    }
}

pub open spec fn scan_name_spec(host: Seq<char>, port: u16) -> Seq<char> {
    server_label_spec(port) + " ("@ + host + ":"@ + decimal(port as nat) + ")"@
}

fn scan_name(target: &ScanTarget) -> (r: String)
    ensures
        r@ == scan_name_spec(target.host@, target.port),
{
    let label = server_label(target.port);
    let a = concat(label.as_str(), " (");
    let b = concat(a.as_str(), target.host.as_str());
    let c = concat(b.as_str(), ":");
    let p = decimal_string(target.port as u64);
    let d = concat(c.as_str(), p.as_str());
    concat(d.as_str(), ")")
}

/// The device that a probe reply reveals, if any. On the Plex DLNA port a successful fetch of
/// the device description gives a device located at the description, named by it where it
/// names itself, and browsable where it names a ContentDirectory service. On other ports a
/// success or a 401 gives a device located at the endpoint.
pub open spec fn scan_hit_spec(host: Seq<char>, port: u16, status: u16, body: Seq<char>) -> Option<UpnpDeviceView> {
    let endpoint = endpoint_spec(host, port);
    if port == 32469 {
        if 200 <= status <= 299 {
            let desc = description_url_spec(host, port);
            Some(
                UpnpDeviceView {
                    name: match friendly_name_spec(body) {
                        Some(n) => n,
                        None => scan_name_spec(host, port),
                    },
                    location: desc,
                    base_url: endpoint,
                    device_client: Some("DirectScan"@),
                    content_directory_url: content_directory_spec(body, desc),
                },
            )
        } else {
            None
        }
    } else if is_presence_status_spec(status) {
        Some(
            UpnpDeviceView {
                name: scan_name_spec(host, port),
                location: endpoint,
                base_url: endpoint,
                device_client: Some("DirectScan"@),
                content_directory_url: None,
            },
        )
    } else {
        None
    }
}

/// Reads the reply to a probe of `target`.
pub fn scan_hit(target: &ScanTarget, status: u16, body: &str) -> (r: Option<UpnpDevice>)
    ensures
        match r {
            Some(d) => scan_hit_spec(target.host@, target.port, status, body@) == Some(d@),
            None => scan_hit_spec(target.host@, target.port, status, body@) is None,
        },
{
    let endpoint = endpoint_url(target);
    if target.port == PLEX_DLNA_PORT {
        if 200 <= status && status <= 299 {
            let desc = concat(endpoint.as_str(), "/DeviceDescription.xml");
            let name = match friendly_name(body) {
                Some(n) => n,
                None => scan_name(target),
            };
            let content_directory_url = parse_content_directory_url(body, desc.as_str());
            Some(UpnpDevice {
                name,
                location: desc,
                base_url: endpoint,
                device_client: Some(String::from_str("DirectScan")),
                content_directory_url,
            })
        } else {
            None
        }
    } else if is_presence_status(status) {
        Some(UpnpDevice {
            name: scan_name(target),
            location: endpoint.clone(),
            base_url: endpoint,
            device_client: Some(String::from_str("DirectScan")),
            content_directory_url: None,
        })
    } else {
        None
    }
}

/// A probe answered 401 on a port other than the DLNA one: the server is registered.
pub proof fn lemma_unauthorized_is_a_hit(host: Seq<char>, port: u16, body: Seq<char>)
    requires
        port != PLEX_DLNA_PORT,
    ensures
        scan_hit_spec(host, port, 401, body) is Some,
        scan_hit_spec(host, port, 401, body)->0.location == endpoint_spec(host, port),
{
}

/// `d` and `e` are the same hit: same location and same base URL.
pub open spec fn same_hit(d: UpnpDeviceView, e: UpnpDeviceView) -> bool {
    d.location == e.location && d.base_url == e.base_url
}

/// The hits without repeats, each kept where it first appears.
pub open spec fn dedup_hits_spec(hits: Seq<UpnpDeviceView>) -> Seq<UpnpDeviceView>
    decreases hits.len(),
{
    if hits.len() == 0 {
        Seq::empty()
    } else {
        let kept = dedup_hits_spec(hits.drop_last());
        if exists|k: int| 0 <= k < kept.len() && same_hit(kept[k], hits.last()) {
            kept
        } else {
            kept.push(hits.last())
        }
    }
}

/// The scan's hits without repeats of a `(location, base URL)` pair, in order of first
/// appearance.
pub fn dedup_hits(hits: &Vec<UpnpDevice>) -> (r: Vec<UpnpDevice>)
    ensures
        upnp_devices_view(r@) == dedup_hits_spec(upnp_devices_view(hits@)),
{
    let ghost all = upnp_devices_view(hits@);
    let mut out: Vec<UpnpDevice> = Vec::new();
    let mut i: usize = 0;
    assert(all.subrange(0, 0) =~= Seq::<UpnpDeviceView>::empty());
    assert(upnp_devices_view(out@) =~= Seq::<UpnpDeviceView>::empty());
    while i < hits.len()
        invariant
            i <= hits.len(),
            all == upnp_devices_view(hits@),
            upnp_devices_view(out@) == dedup_hits_spec(all.subrange(0, i as int)),
        decreases hits.len() - i,
    {
        let ghost prefix = all.subrange(0, i + 1);
        assert(prefix.drop_last() =~= all.subrange(0, i as int));
        assert(prefix.last() == hits@[i as int]@);
        let mut seen = false;
        let mut k: usize = 0;
        while k < out.len()
            invariant
                i < hits.len(),
                k <= out.len(),
                seen ==> exists|m: int| 0 <= m < out@.len() && same_hit(out@[m]@, hits@[i as int]@),
                !seen ==> forall|m: int| 0 <= m < k ==> !same_hit(#[trigger] out@[m]@, hits@[i as int]@),
            decreases out.len() - k,
        {
            if str_eq(out[k].location.as_str(), hits[i].location.as_str()) && str_eq(
                out[k].base_url.as_str(),
                hits[i].base_url.as_str(),
            ) {
                seen = true;
            }
            k = k + 1;
        }
        let ghost kept = upnp_devices_view(out@);
        assert(seen <==> exists|m: int| 0 <= m < kept.len() && same_hit(kept[m], prefix.last())) by {
            if !seen {
                assert forall|m: int| 0 <= m < kept.len() implies !same_hit(kept[m], prefix.last()) by {
                    assert(kept[m] == out@[m]@);
                }
            } else {
                let m = choose|m: int| 0 <= m < out@.len() && same_hit(out@[m]@, hits@[i as int]@);
                assert(kept[m] == out@[m]@);
            }
        }
        if !seen {
            out.push(copy_upnp_device(&hits[i]));
            assert(upnp_devices_view(out@) =~= kept.push(prefix.last()));
        }
        i = i + 1;
    }
    assert(all.subrange(0, i as int) =~= all);
    out
}

} // verus!
