//! Device descriptions: finding a device's ContentDirectory control endpoint and its name.
use vstd::prelude::*;

use crate::text::{chars_of, concat, contains, starts_with_chars, str_contains, str_eq};
use crate::url_parts::{make_origin, origin, parse_url, parsed_url};
use crate::xml::{events_view, xml_events, xml_events_of, XmlEvent, XmlEventView};

verus! {

/// Where a scan of a description's services stands.
pub struct ServiceScan {
    pub in_service: bool,
    pub in_type: bool,
    pub in_control: bool,
    pub service_type: Seq<char>,
    pub control_url: Seq<char>,
}

pub open spec fn scan_start() -> ServiceScan {
    ServiceScan {
        in_service: false,
        in_type: false,
        in_control: false,
        service_type: Seq::empty(),
        control_url: Seq::empty(),
    }
}

/// The control URL as the device serves it: an absolute one (starting with `http`) as it
/// is, a relative one after the device's `base`.
pub open spec fn absolute_control_url(base: Seq<char>, control: Seq<char>) -> Seq<char> {
    if control.len() >= 4 && control.subrange(0, 4) == "http"@ {
        control
    } else {
        base + control
    }
}

/// The control URL of the first service, in document order, whose type contains
/// `ContentDirectory` and whose control URL is not empty.
pub open spec fn content_directory_scan(evs: Seq<XmlEventView>, st: ServiceScan, base: Seq<char>) -> Option<
    Seq<char>,
>
    decreases evs.len(),
{
    if evs.len() == 0 {
        None
    } else {
        let rest = evs.drop_first();
        match evs[0] {
            XmlEventView::Start(n, _) => if n == "service"@ {
                content_directory_scan(
                    rest,
                    ServiceScan { in_service: true, service_type: Seq::empty(), control_url: Seq::empty(), ..st },
                    base,
                )
            } else if n == "serviceType"@ {
                content_directory_scan(rest, ServiceScan { in_type: true, ..st }, base)
            } else if n == "controlURL"@ {
                content_directory_scan(rest, ServiceScan { in_control: true, ..st }, base)
            } else {
                content_directory_scan(rest, st, base)
            },
            XmlEventView::Text(t) => if st.in_service && st.in_type {
                content_directory_scan(rest, ServiceScan { service_type: t, ..st }, base)
            } else if st.in_service && st.in_control {
                content_directory_scan(rest, ServiceScan { control_url: t, ..st }, base)
            } else {
                content_directory_scan(rest, st, base)
            },
            XmlEventView::End(n) => if n == "service"@ {
                if contains(st.service_type, "ContentDirectory"@) && st.control_url.len() > 0 {
                    Some(absolute_control_url(base, st.control_url))
                } else {
                    content_directory_scan(rest, ServiceScan { in_service: false, ..st }, base)
                }
            } else if n == "serviceType"@ {
                content_directory_scan(rest, ServiceScan { in_type: false, ..st }, base)
            } else if n == "controlURL"@ {
                content_directory_scan(rest, ServiceScan { in_control: false, ..st }, base)
            } else {
                content_directory_scan(rest, st, base)
            },
            XmlEventView::Other => content_directory_scan(rest, st, base),
            _ => None,
        }
    }
}

/// The origin that relative control URLs are resolved against: the scheme, host and port
/// of the device URL, the port 80 where it names none, the host empty where it has none.
pub open spec fn device_origin(device_url: Seq<char>) -> Option<Seq<char>> {
    match parsed_url(device_url) {
        Some(p) => Some(
            origin(
                p.scheme,
                match p.host {
                    Some(h) => h,
                    None => Seq::empty(),
                },
                match p.port {
                    Some(n) => n as nat,
                    None => 80,
                },
            ),
        ),
        None => None,
    }
}

/// The ContentDirectory control URL that a device description names, if any.
pub open spec fn content_directory_spec(description: Seq<char>, device_url: Seq<char>) -> Option<
    Seq<char>,
> {
    match device_origin(device_url) {
        Some(base) => content_directory_scan(xml_events_of(description), scan_start(), base),
        None => None,
    }
}

/// Finds, in the events of a device description, the control URL of its first
/// ContentDirectory service, resolved against `base`.
pub fn content_directory_from_events(evs: &Vec<XmlEvent>, base: &str) -> (r: Option<String>)
    ensures
        match r {
            Some(u) => content_directory_scan(events_view(evs@), scan_start(), base@) == Some(u@),
            None => content_directory_scan(events_view(evs@), scan_start(), base@) is None,
        },
{
    let ghost all = events_view(evs@);
    let mut in_service = false;
    let mut in_type = false;
    let mut in_control = false;
    let mut service_type = String::new();
    let mut control_url = String::new();
    let mut i: usize = 0;
    assert(all.subrange(0, evs.len() as int) =~= all);
    while i < evs.len()
        invariant
            i <= evs.len(),
            all == events_view(evs@),
            content_directory_scan(all, scan_start(), base@) == content_directory_scan(
                all.subrange(i as int, evs.len() as int),
                ServiceScan {
                    in_service,
                    in_type,
                    in_control,
                    service_type: service_type@,
                    control_url: control_url@,
                },
                base@,
            ),
        decreases evs.len() - i,
    {
        let ghost rest = all.subrange(i as int, evs.len() as int);
        assert(rest[0] == evs@[i as int]@);
        assert(rest.drop_first() =~= all.subrange(i + 1, evs.len() as int));
        match &evs[i] {
            XmlEvent::Start(n, _) => {
                if str_eq(n.as_str(), "service") {
                    in_service = true;
                    service_type = String::new();
                    control_url = String::new();
                } else if str_eq(n.as_str(), "serviceType") {
                    in_type = true;
                } else if str_eq(n.as_str(), "controlURL") {
                    in_control = true;
                }
            },
            XmlEvent::Text(t) => {
                if in_service && in_type {
                    service_type = String::from_str(t.as_str());
                } else if in_service && in_control {
                    control_url = String::from_str(t.as_str());
                }
            },
            XmlEvent::End(n) => {
                if str_eq(n.as_str(), "service") {
                    if str_contains(service_type.as_str(), "ContentDirectory")
                        && !control_url.as_str().is_empty() {
                        return Some(resolve_control_url(base, control_url.as_str()));
                    }
                    in_service = false;
                } else if str_eq(n.as_str(), "serviceType") {
                    in_type = false;
                } else if str_eq(n.as_str(), "controlURL") {
                    in_control = false;
                }
            },
            XmlEvent::Other => {},
            _ => { return None; },
        }
        i = i + 1;
    }
    None
}

/// Resolves a control URL against the device's origin.
pub fn resolve_control_url(base: &str, control: &str) -> (r: String)
    ensures
        r@ == absolute_control_url(base@, control@),
{
    let cv = chars_of(control);
    let http = chars_of("http");
    proof { reveal_strlit("http"); }
    if starts_with_chars(cv.as_slice(), http.as_slice()) {
        String::from_str(control)
    } else {
        concat(base, control)
    }
}

/// The ContentDirectory control URL of a device, from its description document and the
/// URL the description was fetched from; `None` where the URL does not parse, the
/// document names no such service, or it is not well-formed before one is found.
pub fn parse_content_directory_url(description: &str, device_url: &str) -> (r: Option<String>)
    ensures
        match r {
            Some(u) => content_directory_spec(description@, device_url@) == Some(u@),
            None => content_directory_spec(description@, device_url@) is None,
        },
{
    let base = match parse_url(device_url) {
        Some(p) => {
            let host = match &p.host {
                Some(h) => String::from_str(h.as_str()),
                None => String::new(),
            };
            let port: u16 = match p.port {
                Some(n) => n,
                None => 80,
            };
            make_origin(p.scheme.as_str(), host.as_str(), port)
        },
        None => { return None; },
    };
    let evs = xml_events(description);
    content_directory_from_events(&evs, base.as_str())
}

/// The outcome of fetching a description: a status outside 200..=299 gives no endpoint;
/// otherwise the body is read as a description.
pub open spec fn resolve_spec(status: u16, body: Seq<char>, device_url: Seq<char>) -> Option<Seq<char>> {
    if 200 <= status <= 299 {
        content_directory_spec(body, device_url)
    } else {
        None
    }
}

/// The ContentDirectory control URL, from the reply to a GET of the device description.
pub fn resolve_content_directory(status: u16, body: &str, device_url: &str) -> (r: Option<String>)
    ensures
        match r {
            Some(u) => resolve_spec(status, body@, device_url@) == Some(u@),
            None => resolve_spec(status, body@, device_url@) is None,
        },
{
    if status < 200 || status > 299 {
        return None;
    }
    parse_content_directory_url(body, device_url)
}

/// The first text inside an element named `name`, from where the scan stands.
pub open spec fn text_within(evs: Seq<XmlEventView>, name: Seq<char>, inside: bool) -> Option<Seq<char>>
    decreases evs.len(),
{
    if evs.len() == 0 {
        None
    } else {
        let rest = evs.drop_first();
        match evs[0] {
            XmlEventView::Start(n, _) => text_within(rest, name, inside || n == name),
            XmlEventView::End(n) => text_within(rest, name, inside && n != name),
            XmlEventView::Text(t) => if inside { Some(t) } else { text_within(rest, name, inside) },
            XmlEventView::Other => text_within(rest, name, inside),
            _ => None,
        }
    }
}

/// The friendly name that a device description gives.
pub open spec fn friendly_name_spec(description: Seq<char>) -> Option<Seq<char>> {
    text_within(xml_events_of(description), "friendlyName"@, false)
}

/// The text of the first `friendlyName` element of a device description.
pub fn friendly_name(description: &str) -> (r: Option<String>)
    ensures
        match r {
            Some(t) => friendly_name_spec(description@) == Some(t@),
            None => friendly_name_spec(description@) is None,
        },
{
    let evs = xml_events(description);
    let ghost all = events_view(evs@);
    let mut inside = false;
    let mut i: usize = 0;
    assert(all.subrange(0, evs.len() as int) =~= all);
    while i < evs.len()
        invariant
            i <= evs.len(),
            all == events_view(evs@),
            all == xml_events_of(description@),
            text_within(all, "friendlyName"@, false) == text_within(
                all.subrange(i as int, evs.len() as int),
                "friendlyName"@,
                inside,
            ),
        decreases evs.len() - i,
    {
        let ghost rest = all.subrange(i as int, evs.len() as int);
        assert(rest[0] == evs@[i as int]@);
        assert(rest.drop_first() =~= all.subrange(i + 1, evs.len() as int));
        match &evs[i] {
            XmlEvent::Start(n, _) => {
                if str_eq(n.as_str(), "friendlyName") {
                    inside = true;
                }
            },
            XmlEvent::End(n) => {
                if str_eq(n.as_str(), "friendlyName") {
                    inside = false;
                }
            },
            XmlEvent::Text(t) => {
                if inside {
                    return Some(String::from_str(t.as_str()));
                }
            },
            XmlEvent::Other => {},
            _ => { return None; },
        }
        i = i + 1;
    }
    None
}

} // verus!
