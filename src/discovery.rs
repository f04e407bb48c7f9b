//! The discovery session: runs the multicast probe and the port scan side by side, merges
//! what they find by location, and reports progress as messages.
use vstd::prelude::*;

use crate::browse::{copy_upnp_device, upnp_devices_view, UpnpDevice, UpnpDeviceView};
use crate::didl::opt_view;
use crate::permissions::PermissionState;
use crate::ssdp::Device;
use crate::text::{concat, decimal, decimal_string, str_eq};
use crate::url_parts::{parse_url, parsed_url};

verus! {

/// One of the two probes of a discovery run.
#[derive(Debug, Clone, Copy, PartialEq, Eq, Structural)]
pub enum DiscoveryPhase {
    Multicast,
    PortScan,
}

/// A progress message of a discovery run.
#[derive(Debug)]
pub enum DiscoveryMessage {
    Started,
    /// A probe found a device; such previews may repeat and are not final.
    DeviceFound(UpnpDevice),
    PhaseComplete(DiscoveryPhase),
    Error(String),
    /// The final list of devices, without two at one location; sent once per run.
    AllComplete(Vec<UpnpDevice>),
}

pub enum MessageView {
    Started,
    DeviceFound(UpnpDeviceView),
    PhaseComplete(DiscoveryPhase),
    Error(Seq<char>),
    AllComplete(Seq<UpnpDeviceView>),
}

impl View for DiscoveryMessage {
    type V = MessageView;

    open spec fn view(&self) -> MessageView {
        match self {
            DiscoveryMessage::Started => MessageView::Started,
            DiscoveryMessage::DeviceFound(d) => MessageView::DeviceFound(d@),
            DiscoveryMessage::PhaseComplete(p) => MessageView::PhaseComplete(*p),
            DiscoveryMessage::Error(e) => MessageView::Error(e@),
            DiscoveryMessage::AllComplete(ds) => MessageView::AllComplete(upnp_devices_view(ds@)),
        }
    }
}

pub open spec fn messages_view(v: Seq<DiscoveryMessage>) -> Seq<MessageView> {
    Seq::new(v.len(), |i: int| v[i]@)
}

/// How many `AllComplete` messages a sequence holds.
pub open spec fn all_complete_count(ms: Seq<MessageView>) -> nat
    decreases ms.len(),
{
    if ms.len() == 0 {
        0
    } else {
        all_complete_count(ms.drop_last()) + if ms.last() is AllComplete { 1nat } else { 0nat }
    }
}

/// No two devices share a location.
pub open spec fn unique_locations(ds: Seq<UpnpDeviceView>) -> bool {
    forall|i: int, j: int|
        0 <= i < ds.len() && 0 <= j < ds.len() && i != j ==> ds[i].location != ds[j].location
}

/// `ds` holds a device at `location`.
pub open spec fn has_location(ds: Seq<UpnpDeviceView>, location: Seq<char>) -> bool {
    exists|k: int| 0 <= k < ds.len() && ds[k].location == location
}

/// `found` merged into `ds`: each device whose location is not held yet is added at the end;
/// the record seen first at a location is the one kept.
pub open spec fn merge_spec(ds: Seq<UpnpDeviceView>, found: Seq<UpnpDeviceView>) -> Seq<UpnpDeviceView>
    decreases found.len(),
{
    if found.len() == 0 {
        ds
    } else {
        let m = merge_spec(ds, found.drop_last());
        if has_location(m, found.last().location) {
            m
        } else {
            m.push(found.last())
        }
    }
}

/// Merging keeps locations unique.
pub proof fn lemma_merge_unique(ds: Seq<UpnpDeviceView>, found: Seq<UpnpDeviceView>)
    requires
        unique_locations(ds),
    ensures
        unique_locations(merge_spec(ds, found)),
    decreases found.len(),
{
    if found.len() > 0 {
        lemma_merge_unique(ds, found.drop_last());
        let m = merge_spec(ds, found.drop_last());
        if !has_location(m, found.last().location) {
            let r = m.push(found.last());
            assert forall|i: int, j: int|
                0 <= i < r.len() && 0 <= j < r.len() && i != j implies r[i].location != r[j].location by {
                if i == m.len() {
                    assert(!(m[j].location == found.last().location));
                } else if j == m.len() {
                    assert(!(m[i].location == found.last().location));
                }
            }
        }
    }
}

/// Where a session stands.
pub struct SessionView {
    pub running: bool,
    pub multicast_done: bool,
    pub scan_done: bool,
    pub devices: Seq<UpnpDeviceView>,
}

pub open spec fn phase_done(s: SessionView, p: DiscoveryPhase) -> bool {
    match p {
        DiscoveryPhase::Multicast => s.multicast_done,
        DiscoveryPhase::PortScan => s.scan_done,
    }
}

/// The line an error event carries for a probe's failure.
pub open spec fn probe_error_spec(p: DiscoveryPhase, detail: Seq<char>) -> Seq<char> {
    match p {
        DiscoveryPhase::Multicast => "SSDP discovery failed: "@ + detail,
        DiscoveryPhase::PortScan => "Port scan failed: "@ + detail,
    }
}

/// A probe's result, as values.
pub open spec fn found_of(result: Result<Seq<UpnpDeviceView>, Seq<char>>) -> Seq<UpnpDeviceView> {
    match result {
        Ok(ds) => ds,
        Err(_) => Seq::empty(),
    }
}

/// The session after a probe finished.
pub open spec fn after_probe(s: SessionView, p: DiscoveryPhase, result: Result<Seq<UpnpDeviceView>, Seq<char>>) -> SessionView {
    SessionView {
        multicast_done: s.multicast_done || p == DiscoveryPhase::Multicast,
        scan_done: s.scan_done || p == DiscoveryPhase::PortScan,
        devices: merge_spec(s.devices, found_of(result)),
        ..s
    }
}

/// The messages sent when a probe finished: its error if it failed, its completion, and,
/// when it was the last of the two, the final list.
pub open spec fn probe_messages(s: SessionView, p: DiscoveryPhase, result: Result<Seq<UpnpDeviceView>, Seq<char>>) -> Seq<MessageView> {
    let t = after_probe(s, p, result);
    let head = match result {
        Ok(_) => seq![MessageView::PhaseComplete(p)],
        Err(e) => seq![MessageView::Error(probe_error_spec(p, e)), MessageView::PhaseComplete(p)],
    };
    if t.multicast_done && t.scan_done {
        head.push(MessageView::AllComplete(t.devices))
    } else {
        head
    }
}

/// The state of one discovery run.
pub struct DiscoverySession {
    running: bool,
    multicast_done: bool,
    scan_done: bool,
    devices: Vec<UpnpDevice>,
}

impl View for DiscoverySession {
    type V = SessionView;

    closed spec fn view(&self) -> SessionView {
        SessionView {
            running: self.running,
            multicast_done: self.multicast_done,
            scan_done: self.scan_done,
            devices: upnp_devices_view(self.devices@),
        }
    }
}

impl DiscoverySession {
    /// The session's invariant: probes finish only in a running session, and the merged
    /// devices never share a location.
    pub open spec fn wf(&self) -> bool {
        &&& (self@.multicast_done || self@.scan_done) ==> self@.running
        &&& unique_locations(self@.devices)
    }

    /// A session that has not started.
    pub fn new() -> (r: DiscoverySession)
        ensures
            r.wf(),
            !r@.running && !r@.multicast_done && !r@.scan_done && r@.devices.len() == 0,
    {
        let r = DiscoverySession { running: false, multicast_done: false, scan_done: false, devices: Vec::new() };
        assert(r@.devices =~= Seq::<UpnpDeviceView>::empty());
        r
    }

    /// Starts the run: sends `Started` the first time, and nothing when the run is already
    /// under way (a second start never launches a second run).
    pub fn start(&mut self) -> (r: Vec<DiscoveryMessage>)
        requires
            old(self).wf(),
        ensures
            final(self).wf(),
            old(self)@.running ==> final(self)@ == old(self)@ && r@.len() == 0,
            !old(self)@.running ==> final(self)@ == (SessionView { running: true, ..old(self)@ })
                && messages_view(r@) == seq![MessageView::Started],
    {
        let mut out: Vec<DiscoveryMessage> = Vec::new();
        if !self.running {
            self.running = true;
            out.push(DiscoveryMessage::Started);
            assert(messages_view(out@) =~= seq![MessageView::Started]);
        }
        out
    }

    /// Whether the run is under way or over.
    pub fn is_running(&self) -> (r: bool)
        ensures
            r == self@.running,
    {
        self.running
    }

    /// Whether both probes have finished.
    pub fn is_complete(&self) -> (r: bool)
        ensures
            r == (self@.multicast_done && self@.scan_done),
    {
        self.multicast_done && self.scan_done
    }

    /// The message that tells of a degraded capability, for a permission state other than a
    /// grant. Discovery goes on either way.
    pub fn permission_checked(&self, state: PermissionState) -> (r: Option<DiscoveryMessage>)
        ensures
            state == PermissionState::Granted ==> r is None,
            state == PermissionState::Denied ==> (r matches Some(m) && m@ == MessageView::Error(
                "Local network permission denied. UPnP discovery will not work."@,
            )),
            state != PermissionState::Granted && state != PermissionState::Denied ==> (r matches Some(m)
                && m@ == MessageView::Error("Could not determine permission state"@)),
    {
        match state {
            PermissionState::Granted => None,
            PermissionState::Denied => Some(
                DiscoveryMessage::Error(
                    String::from_str("Local network permission denied. UPnP discovery will not work."),
                ),
            ),
            _ => Some(DiscoveryMessage::Error(String::from_str("Could not determine permission state"))),
        }
    }

    fn merge(&mut self, found: &Vec<UpnpDevice>)
        requires
            unique_locations(old(self)@.devices),
        ensures
            final(self)@ == (SessionView { devices: merge_spec(old(self)@.devices, upnp_devices_view(found@)), ..old(self)@ }),
            unique_locations(final(self)@.devices),
    {
        let ghost all = upnp_devices_view(found@);
        let mut i: usize = 0;
        assert(all.subrange(0, 0) =~= Seq::<UpnpDeviceView>::empty());
        while i < found.len()
            invariant
                i <= found.len(),
                all == upnp_devices_view(found@),
                self@ == (SessionView { devices: merge_spec(old(self)@.devices, all.subrange(0, i as int)), ..old(self)@ }),
            decreases found.len() - i,
        {
            let ghost part = all.subrange(0, i + 1);
            assert(part.drop_last() =~= all.subrange(0, i as int));
            assert(part.last() == found@[i as int]@);
            let mut seen = false;
            let mut k: usize = 0;
            while k < self.devices.len()
                invariant
                    i < found.len(),
                    k <= self.devices.len(),
                    seen ==> exists|m: int| 0 <= m < self.devices@.len() && self.devices@[m]@.location == found@[i as int]@.location,
                    !seen ==> forall|m: int| 0 <= m < k ==> (#[trigger] self.devices@[m])@.location != found@[i as int]@.location,
                decreases self.devices.len() - k,
            {
                if str_eq(self.devices[k].location.as_str(), found[i].location.as_str()) {
                    seen = true;
                }
                k = k + 1;
            }
            let ghost held = self@.devices;
            assert(seen <==> has_location(held, part.last().location)) by {
                if !seen {
                    assert forall|m: int| 0 <= m < held.len() implies !(held[m].location == part.last().location) by {
                        assert(held[m] == self.devices@[m]@);
                    }
                } else {
                    let m = choose|m: int| 0 <= m < self.devices@.len() && self.devices@[m]@.location == found@[i as int]@.location;
                    assert(held[m] == self.devices@[m]@);
                }
            }
            if !seen {
                self.devices.push(copy_upnp_device(&found[i]));
                assert(self@.devices =~= held.push(part.last()));
            }
            i = i + 1;
        }
        assert(all.subrange(0, i as int) =~= all);
        proof { lemma_merge_unique(old(self)@.devices, all); }
    }

    /// Takes in a probe's result (its devices, or the reason it failed, which counts as no
    /// devices) and answers with the messages to send.
    pub fn probe_finished(&mut self, phase: DiscoveryPhase, result: Result<Vec<UpnpDevice>, String>) -> (r: Vec<DiscoveryMessage>)
        requires
            old(self).wf(),
            old(self)@.running,
            !phase_done(old(self)@, phase),
        ensures
            final(self).wf(),
            final(self)@ == after_probe(old(self)@, phase, result_view(result)),
            messages_view(r@) == probe_messages(old(self)@, phase, result_view(result)),
    {
        let empty: Vec<UpnpDevice> = Vec::new();
        let mut out: Vec<DiscoveryMessage> = Vec::new();
        match &result {
            Ok(found) => { self.merge(found); },
            Err(detail) => {
                self.merge(&empty);
                let line = match phase {
                    DiscoveryPhase::Multicast => concat("SSDP discovery failed: ", detail.as_str()),
                    DiscoveryPhase::PortScan => concat("Port scan failed: ", detail.as_str()),
                };
                out.push(DiscoveryMessage::Error(line));
            },
        }
        assert(upnp_devices_view(empty@) =~= Seq::<UpnpDeviceView>::empty());
        match phase {
            DiscoveryPhase::Multicast => { self.multicast_done = true; },
            DiscoveryPhase::PortScan => { self.scan_done = true; },
        }
        out.push(DiscoveryMessage::PhaseComplete(phase));
        if self.multicast_done && self.scan_done {
            let mut all: Vec<UpnpDevice> = Vec::new();
            let mut i: usize = 0;
            while i < self.devices.len()
                invariant
                    i <= self.devices.len(),
                    all@.len() == i,
                    forall|k: int| 0 <= k < i ==> (#[trigger] all@[k])@ == self.devices@[k]@,
                decreases self.devices.len() - i,
            {
                all.push(copy_upnp_device(&self.devices[i]));
                i = i + 1;
            }
            assert(upnp_devices_view(all@) =~= self@.devices);
            out.push(DiscoveryMessage::AllComplete(all));
        }
        assert(messages_view(out@) =~= probe_messages(old(self)@, phase, result_view(result)));
        out
    }
}

pub open spec fn result_view(r: Result<Vec<UpnpDevice>, String>) -> Result<Seq<UpnpDeviceView>, Seq<char>> {
    match r {
        Ok(ds) => Ok(upnp_devices_view(ds@)),
        Err(e) => Err(e@),
    }
}

/// Once a run has started, whichever probe finishes first and whatever either returns,
/// the run sends exactly one `AllComplete`, and its list holds no two devices at one
/// location.
pub proof fn lemma_one_final_list(
    s: SessionView,
    first: DiscoveryPhase,
    r1: Result<Seq<UpnpDeviceView>, Seq<char>>,
    r2: Result<Seq<UpnpDeviceView>, Seq<char>>,
)
    requires
        s.running,
        !s.multicast_done,
        !s.scan_done,
        unique_locations(s.devices),
    ensures
        ({
            let second = if first == DiscoveryPhase::Multicast { DiscoveryPhase::PortScan } else { DiscoveryPhase::Multicast };
            let s1 = after_probe(s, first, r1);
            let ms = probe_messages(s, first, r1) + probe_messages(s1, second, r2);
            &&& all_complete_count(ms) == 1
            &&& forall|i: int| 0 <= i < ms.len() && ms[i] is AllComplete ==> unique_locations(ms[i]->AllComplete_0)
        }),
{
    let second = if first == DiscoveryPhase::Multicast { DiscoveryPhase::PortScan } else { DiscoveryPhase::Multicast };
    let s1 = after_probe(s, first, r1);
    let s2 = after_probe(s1, second, r2);
    let m1 = probe_messages(s, first, r1);
    let m2 = probe_messages(s1, second, r2);
    lemma_merge_unique(s.devices, found_of(r1));
    lemma_merge_unique(s1.devices, found_of(r2));
    lemma_count_no_final(m1);
    lemma_count_concat(m1, m2);
    lemma_count_no_final(m2.drop_last());
    assert(m2.drop_last().push(m2.last()) =~= m2);
    let ms = m1 + m2;
    assert forall|i: int| 0 <= i < ms.len() && ms[i] is AllComplete implies unique_locations(ms[i]->AllComplete_0) by {
        if i < m1.len() {
            assert(ms[i] == m1[i]);
        } else {
            assert(ms[i] == m2[i - m1.len()]);
            if i - m1.len() < m2.len() - 1 {
                assert(m2[i - m1.len()] == m2.drop_last()[i - m1.len()]);
            }
        }
    }
}

proof fn lemma_count_no_final(ms: Seq<MessageView>)
    requires
        forall|i: int| 0 <= i < ms.len() ==> !(#[trigger] ms[i] is AllComplete),
    ensures
        all_complete_count(ms) == 0,
    decreases ms.len(),
{
    if ms.len() > 0 {
        assert(!(ms[ms.len() - 1] is AllComplete));
        assert forall|i: int| 0 <= i < ms.drop_last().len() implies !(#[trigger] ms.drop_last()[i] is AllComplete) by {
            assert(ms.drop_last()[i] == ms[i]);
        }
        lemma_count_no_final(ms.drop_last());
    }
}

proof fn lemma_count_concat(a: Seq<MessageView>, b: Seq<MessageView>)
    ensures
        all_complete_count(a + b) == all_complete_count(a) + all_complete_count(b),
    decreases b.len(),
{
    if b.len() == 0 {
        assert(a + b =~= a);
    } else {
        assert((a + b).drop_last() =~= a + b.drop_last());
        assert((a + b).last() == b.last());
        lemma_count_concat(a, b.drop_last());
    }
}

// ---------------------------------------------------------------- multicast results

/// The ContentDirectory control URL guessed from a location where its description names
/// none: `/ContentDirectory/control` on the location's host, on its explicit port or 32400.
pub open spec fn guessed_content_directory(location: Seq<char>) -> Option<Seq<char>> {
    match parsed_url(location) {
        Some(p) => match p.host {
            Some(h) => Some(
                "http://"@ + h + ":"@ + decimal(
                    match p.port {
                        Some(n) => n as nat,
                        None => 32400,
                    },
                ) + "/ContentDirectory/control"@,
            ),
            None => None,
        },
        None => None,
    }
}

/// The ContentDirectory control URL of a device found by SSDP: the one its description
/// names, else the guess from its location.
pub fn find_content_directory_service(location: &str, described: Option<String>) -> (r: Option<String>)
    ensures
        described is Some ==> opt_view(r) == opt_view(described),
        described is None ==> opt_view(r) == guessed_content_directory(location@),
{
    match described {
        Some(u) => Some(u),
        None => match parse_url(location) {
            Some(p) => match &p.host {
                Some(h) => {
                    let port: u16 = match p.port {
                        Some(n) => n,
                        None => 32400,
                    };
                    let a = concat("http://", h.as_str());
                    let b = concat(a.as_str(), ":");
                    let n = decimal_string(port as u64);
                    let c = concat(b.as_str(), n.as_str());
                    Some(concat(c.as_str(), "/ContentDirectory/control"))
                },
                None => None,
            },
            None => None,
        },
    }
}

/// The record of a device found by SSDP, its manufacturer as its source.
pub fn convert_to_upnp_device(device: Device, content_directory_url: Option<String>) -> (r: UpnpDevice)
    ensures
        r@ == (UpnpDeviceView {
            name: device@.name,
            location: device@.location,
            base_url: device@.base_url,
            device_client: Some(device@.manufacturer),
            content_directory_url: opt_view(content_directory_url),
        }),
{
    UpnpDevice {
        name: device.name,
        location: device.location,
        base_url: device.base_url,
        device_client: Some(device.manufacturer),
        content_directory_url,
    }
}

} // verus!
