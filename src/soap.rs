//! The ContentDirectory `Browse` action over SOAP: the request, and the reading of the reply.
use vstd::prelude::*;

use crate::didl::{didl_from_events, didl_listing, entries_view, pairs_view, DidlEntry, DidlEntryView};
use crate::text::{concat, contains, decimal, decimal_string, str_contains, str_eq};
use crate::xml::{events_view, xml_events, xml_events_of, XmlEvent, XmlEventView};

verus! {

/// The value of the `SOAPAction` header of a `Browse` request.
pub const BROWSE_SOAP_ACTION: &'static str = "\"urn:schemas-upnp-org:service:ContentDirectory:1#Browse\"";

/// The value of the `Content-Type` header of a `Browse` request.
pub const BROWSE_CONTENT_TYPE: &'static str = "text/xml; charset=utf-8";

/// The envelope of a `Browse` request, up to the object id.
pub const BROWSE_ENVELOPE_HEAD: &'static str = "<?xml version=\"1.0\" encoding=\"utf-8\"?>\n<s:Envelope xmlns:s=\"http://schemas.xmlsoap.org/soap/envelope/\" s:encodingStyle=\"http://schemas.xmlsoap.org/soap/encoding/\">\n    <s:Body>\n        <u:Browse xmlns:u=\"urn:schemas-upnp-org:service:ContentDirectory:1\">\n            <ObjectID>";

/// The envelope of a `Browse` request, after the object id: direct children, every
/// property, from the first, at most one hundred, unsorted.
pub const BROWSE_ENVELOPE_TAIL: &'static str = "</ObjectID>\n            <BrowseFlag>BrowseDirectChildren</BrowseFlag>\n            <Filter>*</Filter>\n            <StartingIndex>0</StartingIndex>\n            <RequestedCount>100</RequestedCount>\n            <SortCriteria></SortCriteria>\n        </u:Browse>\n    </s:Body>\n</s:Envelope>";

/// Why a `Browse` call gave no listing.
#[derive(Debug, Clone, Copy, PartialEq, Eq, Structural)]
pub enum BrowseError {
    /// The server answered with a status outside 200..=299.
    HttpStatus(u16),
    /// The reply carries a SOAP fault.
    SoapFault,
    /// The reply holds no `Result` text.
    MissingResult,
    /// The reply, or the listing inside it, is not well-formed XML.
    MalformedXml,
}

/// The body of a `Browse` request for the children of `container_id`.
pub fn browse_request_body(container_id: &str) -> (r: String)
    ensures
        r@ == BROWSE_ENVELOPE_HEAD@ + container_id@ + BROWSE_ENVELOPE_TAIL@,
{
    let head = concat(BROWSE_ENVELOPE_HEAD, container_id);
    concat(head.as_str(), BROWSE_ENVELOPE_TAIL)
}

pub open spec fn is_success_status(status: u16) -> bool {
    200 <= status <= 299
}

/// The reply carries one of the SOAP fault markers.
pub open spec fn has_fault_marker(body: Seq<char>) -> bool {
    contains(body, "soap:Fault"@) || contains(body, "SOAP-ENV:Fault"@)
}

/// Whether a reply body carries a SOAP fault marker.
pub fn is_soap_fault(body: &str) -> (r: bool)
    ensures
        r == has_fault_marker(body@),
{
    str_contains(body, "soap:Fault") || str_contains(body, "SOAP-ENV:Fault")
}

/// The first text inside a `Result` element of a SOAP reply's events, `in_result` telling
/// whether the scan starts inside one.
pub open spec fn result_scan(evs: Seq<XmlEventView>, in_result: bool) -> Result<
    Seq<char>,
    BrowseError,
>
    decreases evs.len(),
{
    if evs.len() == 0 {
        Err(BrowseError::MissingResult)
    } else {
        match evs[0] {
            XmlEventView::Start(n, _) => result_scan(evs.drop_first(), in_result || n == "Result"@),
            XmlEventView::End(n) => result_scan(evs.drop_first(), in_result && n != "Result"@),
            XmlEventView::Text(t) => if in_result {
                Ok(t)
            } else {
                result_scan(evs.drop_first(), in_result)
            },
            XmlEventView::Eof => Err(BrowseError::MissingResult),
            XmlEventView::Malformed => Err(BrowseError::MalformedXml),
            XmlEventView::Other => result_scan(evs.drop_first(), in_result),
        }
    }
}

/// The DIDL-Lite document that a SOAP reply carries, unescaped, from its events.
pub fn result_from_events(evs: &Vec<XmlEvent>) -> (r: Result<String, BrowseError>)
    ensures
        match r {
            Ok(t) => result_scan(events_view(evs@), false) == Ok::<Seq<char>, BrowseError>(t@),
            Err(e) => result_scan(events_view(evs@), false) == Err::<Seq<char>, BrowseError>(e),
        },
{
    let ghost all = events_view(evs@);
    let mut in_result = false;
    let mut i: usize = 0;
    assert(all.subrange(0, evs.len() as int) =~= all);
    while i < evs.len()
        invariant
            i <= evs.len(),
            all == events_view(evs@),
            result_scan(all, false) == result_scan(all.subrange(i as int, evs.len() as int), in_result),
        decreases evs.len() - i,
    {
        let ghost rest = all.subrange(i as int, evs.len() as int);
        assert(rest[0] == evs@[i as int]@);
        assert(rest.drop_first() =~= all.subrange(i + 1, evs.len() as int));
        match &evs[i] {
            XmlEvent::Start(n, _) => {
                if str_eq(n.as_str(), "Result") {
                    in_result = true;
                }
            },
            XmlEvent::End(n) => {
                if str_eq(n.as_str(), "Result") {
                    in_result = false;
                }
            },
            XmlEvent::Text(t) => {
                if in_result {
                    return Ok(String::from_str(t.as_str()));
                }
            },
            XmlEvent::Eof => { return Err(BrowseError::MissingResult); },
            XmlEvent::Malformed => { return Err(BrowseError::MalformedXml); },
            XmlEvent::Other => {},
        }
        i = i + 1;
    }
    Err(BrowseError::MissingResult)
}

/// The outcome of a `Browse` call, from the reply's status and body: a status outside
/// 200..=299 is an error carrying it; a successful reply with a fault marker is a SOAP fault;
/// otherwise the `Result` text is unescaped and read as DIDL-Lite.
pub open spec fn browse_outcome(status: u16, body: Seq<char>) -> Result<
    (Seq<DidlEntryView>, Seq<(Seq<char>, Seq<char>)>),
    BrowseError,
> {
    if !is_success_status(status) {
        Err(BrowseError::HttpStatus(status))
    } else if has_fault_marker(body) {
        Err(BrowseError::SoapFault)
    } else {
        match result_scan(xml_events_of(body), false) {
            Err(e) => Err(e),
            Ok(didl) => match didl_listing(xml_events_of(didl)) {
                None => Err(BrowseError::MalformedXml),
                Some(listing) => Ok(listing),
            },
        }
    }
}

/// The listing from a DIDL-Lite document's events, or `MalformedXml`.
pub fn listing_from_events(evs: &Vec<XmlEvent>) -> (r: Result<
    (Vec<DidlEntry>, Vec<(String, String)>),
    BrowseError,
>)
    ensures
        match r {
            Ok(p) => didl_listing(events_view(evs@)) == Some((entries_view(p.0@), pairs_view(p.1@))),
            Err(e) => e == BrowseError::MalformedXml && didl_listing(events_view(evs@)) is None,
        },
{
    match didl_from_events(evs) {
        Some(p) => Ok(p),
        None => Err(BrowseError::MalformedXml),
    }
}

/// Reads the reply to a `Browse` request into the entries it lists and the `(title,
/// container id)` pair of each titled container.
pub fn interpret_browse_response(status: u16, body: &str) -> (r: Result<
    (Vec<DidlEntry>, Vec<(String, String)>),
    BrowseError,
>)
    ensures
        match r {
            Ok(p) => browse_outcome(status, body@) == Ok::<_, BrowseError>(
                (entries_view(p.0@), pairs_view(p.1@)),
            ),
            Err(e) => browse_outcome(status, body@) == Err::<
                (Seq<DidlEntryView>, Seq<(Seq<char>, Seq<char>)>),
                BrowseError,
            >(e),
        },
{
    if status < 200 || status > 299 {
        return Err(BrowseError::HttpStatus(status));
    }
    if is_soap_fault(body) {
        return Err(BrowseError::SoapFault);
    }
    let soap_events = xml_events(body);
    let didl = match result_from_events(&soap_events) {
        Ok(t) => t,
        Err(e) => { return Err(e); },
    };
    let didl_events = xml_events(didl.as_str());
    listing_from_events(&didl_events)
}

/// A successful reply whose body holds `SOAP-ENV:Fault` anywhere is a SOAP fault, whatever
/// else the body holds.
pub proof fn lemma_fault_marker_is_soap_fault(status: u16, body: Seq<char>)
    requires
        is_success_status(status),
        contains(body, "SOAP-ENV:Fault"@),
    ensures
        browse_outcome(status, body) == Err::<
            (Seq<DidlEntryView>, Seq<(Seq<char>, Seq<char>)>),
            BrowseError,
        >(BrowseError::SoapFault),
{
}

impl BrowseError {
    pub open spec fn describe_spec(&self) -> Seq<char> {
        match self {
            BrowseError::HttpStatus(s) => "UPnP SOAP request failed with status: "@ + decimal(*s as nat),
            BrowseError::SoapFault => "UPnP SOAP fault in response"@,
            BrowseError::MissingResult => "No Result element found in SOAP response"@,
            BrowseError::MalformedXml => "Malformed XML in SOAP response"@,
        }
    }

    /// A line that tells the user what went wrong.
    pub fn describe(&self) -> (r: String)
        ensures
            r@ == self.describe_spec(),
    {
        match self {
            BrowseError::HttpStatus(s) => {
                let n = decimal_string(*s as u64);
                concat("UPnP SOAP request failed with status: ", n.as_str())
            },
            BrowseError::SoapFault => String::from_str("UPnP SOAP fault in response"),
            BrowseError::MissingResult => String::from_str("No Result element found in SOAP response"),
            BrowseError::MalformedXml => String::from_str("Malformed XML in SOAP response"),
        }
    }
}

} // verus!
