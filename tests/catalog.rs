use mop::browse::{browse_directory, prepare_browse, UpnpDevice};
use mop::didl::{parse_didl, parse_u64, protocol_format};
use mop::path_index::PathIndex;
use mop::soap::{browse_request_body, interpret_browse_response, is_soap_fault, BrowseError};
use mop::xml::{xml_events, XmlEvent};

const DIDL: &str = r#"<DIDL-Lite xmlns="urn:schemas-upnp-org:metadata-1-0/DIDL-Lite/" xmlns:dc="http://purl.org/dc/elements/1.1/" xmlns:upnp="urn:schemas-upnp-org:metadata-1-0/upnp/">
<container id="10" parentID="0"><dc:title>Movies</dc:title></container>
<container id="11" parentID="0"><dc:title>Music</dc:title></container>
<item id="12" parentID="0"><dc:title>Clip</dc:title><res size="123" duration="0:01:30" protocolInfo="http-get:*:video/mp4:*">http://server/clip.mp4</res></item>
</DIDL-Lite>"#;

fn soap_reply(didl: &str) -> String {
    let escaped = didl.replace('&', "&amp;").replace('<', "&lt;").replace('>', "&gt;").replace('"', "&quot;");
    format!(
        "<?xml version=\"1.0\"?><s:Envelope xmlns:s=\"http://schemas.xmlsoap.org/soap/envelope/\"><s:Body><u:BrowseResponse xmlns:u=\"urn:schemas-upnp-org:service:ContentDirectory:1\"><Result>{}</Result><NumberReturned>3</NumberReturned></u:BrowseResponse></s:Body></s:Envelope>",
        escaped
    )
}

fn segs(p: &[&str]) -> Vec<String> {
    p.iter().map(|s| s.to_string()).collect()
}

#[test]
fn didl_two_containers_and_an_item() {
    let (entries, pairs) = parse_didl(DIDL).expect("well-formed");
    assert_eq!(entries.len(), 3);
    assert!(entries[0].is_container);
    assert!(entries[1].is_container);
    assert!(!entries[2].is_container);
    assert_eq!(entries[0].title, "Movies");
    assert_eq!(entries[0].id, "10");
    assert_eq!(entries[2].size, Some(123));
    assert_eq!(entries[2].duration.as_deref(), Some("0:01:30"));
    assert_eq!(entries[2].format.as_deref(), Some("video/mp4"));
    assert_eq!(entries[2].resource_url.as_deref(), Some("http://server/clip.mp4"));
    assert_eq!(pairs, vec![("Movies".to_string(), "10".to_string()), ("Music".to_string(), "11".to_string())]);
}

#[test]
fn didl_untitled_container_gives_no_mapping() {
    let doc = r#"<DIDL-Lite><container id="7"></container></DIDL-Lite>"#;
    let (entries, pairs) = parse_didl(doc).expect("well-formed");
    assert_eq!(entries.len(), 1);
    assert!(pairs.is_empty());
}

#[test]
fn didl_unparsable_size_is_absent() {
    let doc = r#"<DIDL-Lite><item id="1"><dc:title>A</dc:title><res size="12x">u</res></item></DIDL-Lite>"#;
    let (entries, _) = parse_didl(doc).expect("well-formed");
    assert_eq!(entries[0].size, None);
    assert_eq!(entries[0].duration, None);
}

#[test]
fn didl_malformed_fails() {
    assert!(parse_didl("<DIDL-Lite><container id=\"1\"></item></DIDL-Lite>").is_none());
}

#[test]
fn u64_parsing_follows_from_str() {
    assert_eq!(parse_u64("123"), Some(123));
    assert_eq!(parse_u64("+7"), Some(7));
    assert_eq!(parse_u64("18446744073709551615"), Some(u64::MAX));
    assert_eq!(parse_u64("18446744073709551616"), None);
    assert_eq!(parse_u64(""), None);
    assert_eq!(parse_u64("+"), None);
    assert_eq!(parse_u64("-1"), None);
}

#[test]
fn protocol_info_third_field() {
    assert_eq!(protocol_format("http-get:*:audio/mpeg:*").as_deref(), Some("audio/mpeg"));
    assert_eq!(protocol_format("http-get:*").as_deref(), None);
    assert_eq!(protocol_format("a:b:c").as_deref(), Some("c"));
}

#[test]
fn xml_events_unescape_text() {
    let evs = xml_events("<a x=\"1\">  &lt;b&gt;  </a>");
    assert!(matches!(&evs[0], XmlEvent::Start(n, attrs) if n == "a" && attrs[0].key == "x" && attrs[0].value == "1"));
    assert!(matches!(&evs[1], XmlEvent::Text(t) if t == "<b>"));
    assert!(matches!(&evs[2], XmlEvent::End(n) if n == "a"));
    assert!(matches!(evs[3], XmlEvent::Eof));
}

#[test]
fn empty_path_resolves_to_root_before_any_extend() {
    let index = PathIndex::new();
    assert_eq!(index.resolve(&[]), "0");
}

#[test]
fn unmapped_child_falls_back_to_root() {
    let mut index = PathIndex::new();
    index.extend(&[], &"A".to_string(), &"64".to_string());
    assert_eq!(index.resolve(&segs(&["A"])), "64");
    assert_eq!(index.resolve(&segs(&["A", "B"])), "0");
    assert_eq!(index.resolve(&[]), "0");
}

#[test]
fn extend_replaces_and_nests() {
    let mut index = PathIndex::new();
    index.extend(&[], &"A".to_string(), &"1".to_string());
    index.extend(&segs(&["A"]), &"B".to_string(), &"2".to_string());
    index.extend(&[], &"A".to_string(), &"3".to_string());
    assert_eq!(index.resolve(&segs(&["A"])), "3");
    assert_eq!(index.resolve(&segs(&["A", "B"])), "2");
    assert_eq!(index.get(&segs(&["B"])), None);
}

#[test]
fn soap_env_fault_is_soap_fault() {
    let body = "<s:Envelope><s:Body><SOAP-ENV:Fault><faultstring>UPnPError</faultstring></SOAP-ENV:Fault></s:Body></s:Envelope>";
    assert!(is_soap_fault(body));
    assert_eq!(interpret_browse_response(200, body).unwrap_err(), BrowseError::SoapFault);
    assert_eq!(interpret_browse_response(200, "xx soap:Fault").unwrap_err(), BrowseError::SoapFault);
}

#[test]
fn non_success_status_is_http_error() {
    let body = "<SOAP-ENV:Fault/>";
    assert_eq!(interpret_browse_response(500, body).unwrap_err(), BrowseError::HttpStatus(500));
    assert_eq!(interpret_browse_response(404, "").unwrap_err(), BrowseError::HttpStatus(404));
    assert_eq!(BrowseError::HttpStatus(404).describe(), "UPnP SOAP request failed with status: 404");
}

#[test]
fn reply_without_result_or_malformed() {
    assert_eq!(interpret_browse_response(200, "<a><b>x</b></a>").unwrap_err(), BrowseError::MissingResult);
    assert_eq!(interpret_browse_response(200, "<a><b></a>").unwrap_err(), BrowseError::MalformedXml);
}

#[test]
fn reply_unwraps_escaped_didl() {
    let (entries, pairs) = interpret_browse_response(200, &soap_reply(DIDL)).expect("listing");
    assert_eq!(entries.len(), 3);
    assert_eq!(pairs.len(), 2);
}

#[test]
fn request_body_names_the_container() {
    let body = browse_request_body("64$1");
    assert!(body.contains("<ObjectID>64$1</ObjectID>"));
    assert!(body.contains("<BrowseFlag>BrowseDirectChildren</BrowseFlag>"));
    assert!(body.contains("<RequestedCount>100</RequestedCount>"));
    assert!(body.contains("<SortCriteria></SortCriteria>"));
}

fn server(cd: Option<&str>) -> UpnpDevice {
    UpnpDevice {
        name: "S".to_string(),
        location: "http://192.168.1.2:8200/desc.xml".to_string(),
        base_url: "http://192.168.1.2:8200".to_string(),
        device_client: None,
        content_directory_url: cd.map(|s| s.to_string()),
    }
}

#[test]
fn browse_learns_containers_and_lists_items() {
    let mut index = PathIndex::new();
    let req = prepare_browse(&server(Some("http://192.168.1.2:8200/ctl")), &[], &index).expect("service");
    assert_eq!(req.container_id, "0");
    assert_eq!(req.control_url, "http://192.168.1.2:8200/ctl");
    let (items, err) = browse_directory(&[], &mut index, Ok((200, soap_reply(DIDL))));
    assert!(err.is_none());
    assert_eq!(items.len(), 3);
    assert!(items[0].is_directory && items[0].metadata.is_none());
    let meta = items[2].metadata.as_ref().expect("file metadata");
    assert_eq!(meta.size, Some(123));
    assert_eq!(meta.duration.as_deref(), Some("0:01:30"));
    assert_eq!(items[2].url.as_deref(), Some("http://server/clip.mp4"));
    let req = prepare_browse(&server(Some("http://x/ctl")), &segs(&["Music"]), &index).expect("service");
    assert_eq!(req.container_id, "11");
}

#[test]
fn browse_failure_keeps_index() {
    let mut index = PathIndex::new();
    let (items, err) = browse_directory(&[], &mut index, Ok((200, "<x>SOAP-ENV:Fault</x>".to_string())));
    assert!(items.is_empty());
    assert_eq!(err.as_deref(), Some("UPnP ContentDirectory failed: UPnP SOAP fault in response"));
    let (items, err) = browse_directory(&[], &mut index, Err("timed out".to_string()));
    assert!(items.is_empty());
    assert_eq!(err.as_deref(), Some("UPnP ContentDirectory failed: timed out"));
    assert_eq!(index.resolve(&segs(&["Movies"])), "0");
}

#[test]
fn browse_without_service() {
    let index = PathIndex::new();
    assert_eq!(prepare_browse(&server(None), &[], &index).unwrap_err(), "No UPnP ContentDirectory service available");
}
