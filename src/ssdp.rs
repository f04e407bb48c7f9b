//! SSDP discovery: the search requests, the reading of responses, and the collection of
//! devices keyed by location.
use vstd::prelude::*;

use crate::text::{
    chars_of, concat, find, first_occurrence, lemma_first_occurrence, lower_of, lowercase,
    occurs_at, str_eq, substring, trim_range, trimmed,
};
use crate::url_parts::{base_url_spec, extract_base_url};

verus! {

/// The multicast group and port that SSDP searches are sent to.
pub const SSDP_MULTICAST_ADDR: &'static str = "239.255.255.250:1900";

/// The search target for every root device.
pub const ROOT_DEVICE_TARGET: &'static str = "upnp:rootdevice";

/// The search target for media servers.
pub const MEDIA_SERVER_TARGET: &'static str = "urn:schemas-upnp-org:device:MediaServer:1";

/// How long responses are collected, in milliseconds.
pub const SEARCH_WINDOW_MS: u64 = 5000;

/// How long one receive waits, in milliseconds.
pub const RECEIVE_POLL_MS: u64 = 100;

/// A device that answered an SSDP search.
#[derive(Debug, Clone)]
pub struct Device {
    pub name: String,
    pub location: String,
    pub base_url: String,
    pub device_type: String,
    pub manufacturer: String,
    pub friendly_name: String,
}

pub struct DeviceView {
    pub name: Seq<char>,
    pub location: Seq<char>,
    pub base_url: Seq<char>,
    pub device_type: Seq<char>,
    pub manufacturer: Seq<char>,
    pub friendly_name: Seq<char>,
}

impl View for Device {
    type V = DeviceView;

    open spec fn view(&self) -> DeviceView {
        DeviceView {
            name: self.name@,
            location: self.location@,
            base_url: self.base_url@,
            device_type: self.device_type@,
            manufacturer: self.manufacturer@,
            friendly_name: self.friendly_name@,
        }
    }
}

pub open spec fn devices_view(v: Seq<Device>) -> Seq<DeviceView> {
    Seq::new(v.len(), |i: int| v[i]@)
}

/// Why SSDP discovery found nothing.
#[derive(Debug, Clone)]
pub enum DiscoveryError {
    /// A socket operation failed, for a reason other than permission.
    NetworkError(String),
    /// The platform refused access to the local network.
    PermissionDenied,
    /// The search window closed with no device found.
    NoDevicesFound,
    ParseError(String),
    Timeout,
}

impl DiscoveryError {
    /// A socket failure, told apart by whether the platform denied permission.
    pub fn from_socket_failure(permission_denied: bool, message: String) -> (r: DiscoveryError)
        ensures
            permission_denied ==> r is PermissionDenied,
            !permission_denied ==> r == DiscoveryError::NetworkError(message),
    {
        if permission_denied {
            DiscoveryError::PermissionDenied
        } else {
            DiscoveryError::NetworkError(message)
        }
    }

    /// A line that tells the user what went wrong.
    pub fn describe(&self) -> (r: String)
        ensures
            match self {
                DiscoveryError::NetworkError(e) => r@ == "Network error: "@ + e@,
                DiscoveryError::PermissionDenied => r@ == "Local network permission denied"@,
                DiscoveryError::NoDevicesFound => r@ == "No UPnP devices found on network"@,
                DiscoveryError::ParseError(e) => r@ == "Failed to parse device response: "@ + e@,
                DiscoveryError::Timeout => r@ == "Discovery timeout"@,
            },
    {
        match self {
            DiscoveryError::NetworkError(e) => concat("Network error: ", e.as_str()),
            DiscoveryError::PermissionDenied => String::from_str("Local network permission denied"),
            DiscoveryError::NoDevicesFound => String::from_str("No UPnP devices found on network"),
            DiscoveryError::ParseError(e) => concat("Failed to parse device response: ", e.as_str()),
            DiscoveryError::Timeout => String::from_str("Discovery timeout"),
        }
    }
}

pub open spec fn search_request_spec(target: Seq<char>) -> Seq<char> {
    "M-SEARCH * HTTP/1.1\r\nHOST: 239.255.255.250:1900\r\nMAN: \"ssdp:discover\"\r\nST: "@ + target
        + "\r\nMX: 3\r\n\r\n"@
}

/// The M-SEARCH request for a search target.
pub fn search_request(target: &str) -> (r: String)
    ensures
        r@ == search_request_spec(target@),
{
    let head = concat(
        "M-SEARCH * HTTP/1.1\r\nHOST: 239.255.255.250:1900\r\nMAN: \"ssdp:discover\"\r\nST: ",
        target,
    );
    concat(head.as_str(), "\r\nMX: 3\r\n\r\n")
}

// ---------------------------------------------------------------- headers

/// The headers of a response that discovery reads; a later line overrides an earlier one.
pub struct Headers {
    pub location: Option<Seq<char>>,
    pub server: Option<Seq<char>>,
    pub st: Option<Seq<char>>,
    pub usn: Option<Seq<char>>,
}

pub open spec fn no_headers() -> Headers {
    Headers { location: None, server: None, st: None, usn: None }
}

/// The effect of one line: a non-empty trimmed line with a `:` is a header, its name (before
/// the first `:`) compared case-insensitively, its value trimmed.
pub open spec fn apply_line(h: Headers, line: Seq<char>) -> Headers {
    let l = trimmed(line);
    match first_occurrence(l, seq![':']) {
        None => h,
        Some(c) => {
            let name = lower_of(trimmed(l.subrange(0, c)));
            let value = trimmed(l.subrange(c + 1, l.len() as int));
            if name == "location"@ {
                Headers { location: Some(value), ..h }
            } else if name == "server"@ {
                Headers { server: Some(value), ..h }
            } else if name == "st"@ {
                Headers { st: Some(value), ..h }
            } else if name == "usn"@ {
                Headers { usn: Some(value), ..h }
            } else {
                h
            }
        },
    }
}

/// The headers of a text read line by line, lines ending at each `\n`.
pub open spec fn headers_of(s: Seq<char>, h: Headers) -> Headers
    decreases s.len(),
{
    match first_occurrence(s, seq!['\n']) {
        None => apply_line(h, s),
        Some(i) => {
            if 0 <= i < s.len() {
                headers_of(s.subrange(i + 1, s.len() as int), apply_line(h, s.subrange(0, i)))
            } else {
                h
            }
        },
    }
}

struct HeaderValues {
    location: Option<String>,
    server: Option<String>,
    st: Option<String>,
    usn: Option<String>,
}

pub open spec fn opt_view(o: Option<String>) -> Option<Seq<char>> {
    match o {
        Some(s) => Some(s@),
        None => None,
    }
}

impl View for HeaderValues {
    type V = Headers;

    closed spec fn view(&self) -> Headers {
        Headers {
            location: opt_view(self.location),
            server: opt_view(self.server),
            st: opt_view(self.st),
            usn: opt_view(self.usn),
        }
    }
}

impl HeaderValues {
    fn apply(&mut self, line: &[char])
        ensures
            final(self)@ == apply_line(old(self)@, line@),
    {
        assert(line@.subrange(0, line@.len() as int) =~= line@);
        let t = trim_range(line, 0, line.len());
        let l = chars_of(t.as_str());
        let colon = vec![':'];
        assert(colon@ =~= seq![':']);
        proof { lemma_first_occurrence(l@, seq![':']); }
        match find(l.as_slice(), colon.as_slice()) {
            None => {},
            Some(c) => {
                assert(occurs_at(l@, seq![':'], c as int));
                let raw_name = trim_range(l.as_slice(), 0, c);
                let name = lowercase(raw_name.as_str());
                let value = trim_range(l.as_slice(), c + 1, l.len());
                if str_eq(name.as_str(), "location") {
                    self.location = Some(value);
                } else if str_eq(name.as_str(), "server") {
                    self.server = Some(value);
                } else if str_eq(name.as_str(), "st") {
                    self.st = Some(value);
                } else if str_eq(name.as_str(), "usn") {
                    self.usn = Some(value);
                }
            },
        }
    }

    fn read_lines(&mut self, s: &[char])
        ensures
            final(self)@ == headers_of(s@, old(self)@),
        decreases s.len(),
    {
        let nl = vec!['\n'];
        assert(nl@ =~= seq!['\n']);
        proof { lemma_first_occurrence(s@, seq!['\n']); }
        match find(s, nl.as_slice()) {
            None => self.apply(s),
            Some(i) => {
                assert(occurs_at(s@, seq!['\n'], i as int));
                let line = &s[0..i];
                assert(line@ =~= s@.subrange(0, i as int));
                self.apply(line);
                let rest = &s[i + 1..s.len()];
                assert(rest@ =~= s@.subrange(i + 1, s@.len() as int));
                self.read_lines(rest);
            },
        }
    }
}

// ---------------------------------------------------------------- responses

/// The name a device goes by: `Device-` and the first eight characters of the UUID in its
/// USN (up to a `::`), else its device type.
pub open spec fn friendly_name_spec(usn: Option<Seq<char>>, device_type: Seq<char>) -> Seq<char> {
    match usn {
        Some(u) => match first_occurrence(u, "uuid:"@) {
            Some(s) => {
                let part = u.subrange(s + 5, u.len() as int);
                let end = match first_occurrence(part, "::"@) {
                    Some(e) => e,
                    None => part.len() as int,
                };
                "Device-"@ + part.subrange(0, if end < 8 { end } else { 8 })
            },
            None => device_type,
        },
        None => device_type,
    }
}

pub open spec fn or_unknown(o: Option<Seq<char>>) -> Seq<char> {
    match o {
        Some(v) => v,
        None => "Unknown"@,
    }
}

pub open spec fn display_name_spec(friendly: Seq<char>, device_type: Seq<char>, manufacturer: Seq<char>) -> Seq<char> {
    if manufacturer != "Unknown"@ {
        friendly + " ["@ + device_type + "] ("@ + manufacturer + ")"@
    } else {
        friendly + " ["@ + device_type + "]"@
    }
}

/// The device a response describes: only an `HTTP/1.1 200 OK` response with a `LOCATION`
/// header describes one.
pub open spec fn response_device(response: Seq<char>) -> Option<DeviceView> {
    let status = "HTTP/1.1 200 OK"@;
    if !(status.len() <= response.len() && response.subrange(0, status.len() as int) == status) {
        None
    } else {
        let h = headers_of(response, no_headers());
        match h.location {
            None => None,
            Some(location) => {
                let device_type = or_unknown(h.st);
                let manufacturer = or_unknown(h.server);
                let friendly = friendly_name_spec(h.usn, device_type);
                Some(
                    DeviceView {
                        name: display_name_spec(friendly, device_type, manufacturer),
                        location,
                        base_url: base_url_spec(location),
                        device_type,
                        manufacturer,
                        friendly_name: friendly,
                    },
                )
            },
        }
    }
}

fn or_unknown_string(o: Option<String>) -> (r: String)
    ensures
        r@ == or_unknown(opt_view(o)),
{
    match o {
        Some(v) => v,
        None => String::from_str("Unknown"),
    }
}

fn device_friendly_name(usn: &Option<String>, device_type: &String) -> (r: String)
    ensures
        r@ == friendly_name_spec(opt_view(*usn), device_type@),
{
    match usn {
        Some(u) => {
            let uv = chars_of(u.as_str());
            let pat = chars_of("uuid:");
            proof { lemma_first_occurrence(uv@, "uuid:"@); reveal_strlit("uuid:"); }
            match find(uv.as_slice(), pat.as_slice()) {
                Some(s) => {
                    assert(occurs_at(uv@, "uuid:"@, s as int));
                    assert("uuid:"@.len() == 5);
                    assert(s + 5 <= uv@.len());
                    assert(uv@.len() == uv.len());
                    let start: usize = s + 5;
                    let part = &uv.as_slice()[start..uv.len()];
                    assert(part@ =~= uv@.subrange(s + 5, uv@.len() as int));
                    let sep = chars_of("::");
                    proof { lemma_first_occurrence(part@, "::"@); }
                    let end = match find(part, sep.as_slice()) {
                        Some(e) => { assert(occurs_at(part@, "::"@, e as int)); e },
                        None => part.len(),
                    };
                    let cut = if end < 8 { end } else { 8 };
                    let id = substring(part, 0, cut);
                    concat("Device-", id.as_str())
                },
                None => String::from_str(device_type.as_str()),
            }
        },
        None => String::from_str(device_type.as_str()),
    }
}

/// Reads one SSDP response into the device it describes, if any.
pub fn parse_ssdp_response(response: &str) -> (r: Option<Device>)
    ensures
        match r {
            Some(d) => response_device(response@) == Some(d@),
            None => response_device(response@) is None,
        },
{
    let rv = chars_of(response);
    let status = chars_of("HTTP/1.1 200 OK");
    if !crate::text::starts_with_chars(rv.as_slice(), status.as_slice()) {
        return None;
    }
    let mut h = HeaderValues { location: None, server: None, st: None, usn: None };
    h.read_lines(rv.as_slice());
    let location = match h.location {
        Some(l) => l,
        None => { return None; },
    };
    let base_url = extract_base_url(location.as_str());
    let device_type = or_unknown_string(h.st);
    let manufacturer = or_unknown_string(h.server);
    let friendly = device_friendly_name(&h.usn, &device_type);
    let with_type = concat(friendly.as_str(), " [");
    let with_type = concat(with_type.as_str(), device_type.as_str());
    let name = if !str_eq(manufacturer.as_str(), "Unknown") {
        let n = concat(with_type.as_str(), "] (");
        let n = concat(n.as_str(), manufacturer.as_str());
        concat(n.as_str(), ")")
    } else {
        concat(with_type.as_str(), "]")
    };
    Some(Device { name, location, base_url, device_type, manufacturer, friendly_name: friendly })
}

// ---------------------------------------------------------------- collecting

/// No two devices share a location.
pub open spec fn distinct_locations(ds: Seq<DeviceView>) -> bool {
    forall|i: int, j: int| 0 <= i < ds.len() && 0 <= j < ds.len() && i != j ==> ds[i].location != ds[j].location
}

/// The index of the device at `location`, if any.
pub open spec fn index_of_location(ds: Seq<DeviceView>, location: Seq<char>) -> Option<int> {
    if exists|i: int| 0 <= i < ds.len() && ds[i].location == location {
        Some(choose|i: int| 0 <= i < ds.len() && ds[i].location == location)
    } else {
        None
    }
}

/// The devices after a response: a device at a location already held replaces the one
/// held there; a new one is added at the end.
pub open spec fn add_response_spec(ds: Seq<DeviceView>, response: Seq<char>) -> Seq<DeviceView> {
    match response_device(response) {
        None => ds,
        Some(d) => match index_of_location(ds, d.location) {
            Some(i) => ds.update(i, d),
            None => ds.push(d),
        },
    }
}

/// The devices that a sequence of responses yields, in order of first arrival.
pub open spec fn collect_spec(responses: Seq<Seq<char>>) -> Seq<DeviceView>
    decreases responses.len(),
{
    if responses.len() == 0 {
        Seq::empty()
    } else {
        add_response_spec(collect_spec(responses.drop_last()), responses.last())
    }
}

/// What the listening loop does after an event.
#[derive(Debug)]
pub enum SsdpAction {
    /// Wait for the next response.
    KeepListening,
    /// Stop: this is the probe's result.
    Finish(Result<Vec<Device>, DiscoveryError>),
}

/// What happened while listening.
#[derive(Debug, Clone)]
pub enum SsdpEvent {
    /// A datagram arrived that is valid UTF-8.
    Received(String),
    /// A receive timed out (or would block) within the window.
    Idle,
    /// A receive failed otherwise.
    Failed(String),
    /// The search window closed.
    WindowClosed,
}

/// The devices of one SSDP search, keyed by location as responses arrive.
pub struct SsdpCollector {
    devices: Vec<Device>,
}

impl View for SsdpCollector {
    type V = Seq<DeviceView>;

    closed spec fn view(&self) -> Seq<DeviceView> {
        devices_view(self.devices@)
    }
}

impl SsdpCollector {
    pub fn new() -> (r: SsdpCollector)
        ensures
            r@ == Seq::<DeviceView>::empty(),
    {
        let r = SsdpCollector { devices: Vec::new() };
        assert(r@ =~= Seq::<DeviceView>::empty());
        r
    }

    /// The devices collected so far.
    pub fn devices(&self) -> (r: Vec<Device>)
        ensures
            devices_view(r@) == self@,
    {
        let mut out: Vec<Device> = Vec::new();
        let mut i: usize = 0;
        while i < self.devices.len()
            invariant
                i <= self.devices.len(),
                out@.len() == i,
                forall|j: int| 0 <= j < i ==> (#[trigger] out@[j])@ == self.devices@[j]@,
            decreases self.devices.len() - i,
        {
            out.push(copy_device(&self.devices[i]));
            i = i + 1;
        }
        assert(devices_view(out@) =~= self@);
        out
    }

    /// Adds the device a response describes, replacing one held at the same location.
    pub fn add_response(&mut self, response: &str)
        requires
            distinct_locations(old(self)@),
        ensures
            final(self)@ == add_response_spec(old(self)@, response@),
            distinct_locations(final(self)@),
    {
        let d = match parse_ssdp_response(response) {
            Some(d) => d,
            None => { return; },
        };
        let ghost dv = d@;
        let mut i: usize = 0;
        while i < self.devices.len()
            invariant
                i <= self.devices.len(),
                self@ == old(self)@,
                distinct_locations(old(self)@),
                response_device(response@) == Some(dv),
                dv == d@,
                forall|j: int| 0 <= j < i ==> (#[trigger] self@[j]).location != dv.location,
            decreases self.devices.len() - i,
        {
            if str_eq(self.devices[i].location.as_str(), d.location.as_str()) {
                assert(self@[i as int].location == dv.location);
                proof {
                    let ds = old(self)@;
                    assert(exists|k: int| 0 <= k < ds.len() && ds[k].location == dv.location);
                    let k = choose|k: int| 0 <= k < ds.len() && ds[k].location == dv.location;
                    assert(k == i);
                    assert(index_of_location(old(self)@, dv.location) == Some(i as int));
                    assert(response_device(response@) == Some(dv));
                    assert(add_response_spec(old(self)@, response@) == old(self)@.update(i as int, dv));
                }
                self.devices.set(i, d);
                assert(self@ =~= old(self)@.update(i as int, dv));
                return;
            }
            i = i + 1;
        }
        self.devices.push(d);
        assert(self@ =~= old(self)@.push(dv));
    }

    /// Decides what to do after an event of the listening loop. A failure ends the search
    /// with a network error while no device has been found, and with the devices otherwise.
    pub fn handle(&mut self, event: SsdpEvent) -> (r: SsdpAction)
        requires
            distinct_locations(old(self)@),
        ensures
            distinct_locations(final(self)@),
            match event {
                SsdpEvent::Received(resp) => final(self)@ == add_response_spec(old(self)@, resp@)
                    && r is KeepListening,
                SsdpEvent::Idle => final(self)@ == old(self)@ && r is KeepListening,
                SsdpEvent::Failed(msg) => final(self)@ == old(self)@ && match r {
                    SsdpAction::Finish(Ok(ds)) => old(self)@.len() > 0 && devices_view(ds@) == old(self)@,
                    SsdpAction::Finish(Err(e)) => old(self)@.len() == 0 && e == DiscoveryError::NetworkError(msg),
                    SsdpAction::KeepListening => false,
                },
                SsdpEvent::WindowClosed => final(self)@ == old(self)@ && match r {
                    SsdpAction::Finish(Ok(ds)) => old(self)@.len() > 0 && devices_view(ds@) == old(self)@,
                    SsdpAction::Finish(Err(e)) => old(self)@.len() == 0 && e is NoDevicesFound,
                    SsdpAction::KeepListening => false,
                },
            },
    {
        match event {
            SsdpEvent::Received(resp) => {
                self.add_response(resp.as_str());
                SsdpAction::KeepListening
            },
            SsdpEvent::Idle => SsdpAction::KeepListening,
            SsdpEvent::Failed(msg) => {
                if self.devices.len() == 0 {
                    SsdpAction::Finish(Err(DiscoveryError::NetworkError(msg)))
                } else {
                    SsdpAction::Finish(Ok(self.devices()))
                }
            },
            SsdpEvent::WindowClosed => {
                if self.devices.len() == 0 {
                    SsdpAction::Finish(Err(DiscoveryError::NoDevicesFound))
                } else {
                    SsdpAction::Finish(Ok(self.devices()))
                }
            },
        }
    }
}

fn copy_device(d: &Device) -> (r: Device)
    ensures
        r@ == d@,
{
    Device {
        name: d.name.clone(),
        location: d.location.clone(),
        base_url: d.base_url.clone(),
        device_type: d.device_type.clone(),
        manufacturer: d.manufacturer.clone(),
        friendly_name: d.friendly_name.clone(),
    }
}

/// Adding a response keeps locations distinct.
pub proof fn lemma_add_keeps_distinct(ds: Seq<DeviceView>, response: Seq<char>)
    requires
        distinct_locations(ds),
    ensures
        distinct_locations(add_response_spec(ds, response)),
{
    match response_device(response) {
        None => {},
        Some(d) => match index_of_location(ds, d.location) {
            Some(i) => {
                let k = choose|k: int| 0 <= k < ds.len() && ds[k].location == d.location;
                assert(k == i);
                let r = ds.update(i, d);
                assert forall|a: int, b: int| 0 <= a < r.len() && 0 <= b < r.len() && a != b implies r[a].location
                    != r[b].location by {
                    if a == i {
                        assert(ds[i].location == d.location);
                    } else if b == i {
                        assert(ds[i].location == d.location);
                    }
                }
            },
            None => {
                let r = ds.push(d);
                assert forall|a: int, b: int| 0 <= a < r.len() && 0 <= b < r.len() && a != b implies r[a].location
                    != r[b].location by {
                    if a == ds.len() {
                        assert(!(ds[b].location == d.location));
                    } else if b == ds.len() {
                        assert(!(ds[a].location == d.location));
                    }
                }
            },
        },
    }
}

/// However many responses arrive, no two collected devices share a location.
pub proof fn lemma_collected_locations_distinct(responses: Seq<Seq<char>>)
    ensures
        distinct_locations(collect_spec(responses)),
    decreases responses.len(),
{
    if responses.len() > 0 {
        lemma_collected_locations_distinct(responses.drop_last());
        lemma_add_keeps_distinct(collect_spec(responses.drop_last()), responses.last());
    }
}

/// Two responses that describe devices at the same location, whatever else they say (their
/// USN, for one), yield a single device.
pub proof fn lemma_same_location_yields_one_device(first: Seq<char>, second: Seq<char>)
    requires
        response_device(first) is Some,
        response_device(second) is Some,
        response_device(first)->0.location == response_device(second)->0.location,
    ensures
        collect_spec(seq![first, second]).len() == 1,
{
    let rs = seq![first, second];
    assert(rs.drop_last() =~= seq![first]);
    assert(seq![first].drop_last() =~= Seq::<Seq<char>>::empty());
    let one = collect_spec(seq![first]);
    assert(seq![first].last() == first);
    assert(collect_spec(Seq::<Seq<char>>::empty()) == Seq::<DeviceView>::empty());
    assert(index_of_location(Seq::<DeviceView>::empty(), response_device(first)->0.location) is None);
    assert(one =~= seq![response_device(first)->0]);
    let d = response_device(second)->0;
    assert(one[0].location == d.location);
    assert(exists|i: int| 0 <= i < one.len() && one[i].location == d.location);
}

} // verus!
