use mop::browse::UpnpDevice;
use mop::descriptor::{friendly_name, parse_content_directory_url, resolve_content_directory};
use mop::discovery::{convert_to_upnp_device, find_content_directory_service, DiscoveryMessage, DiscoveryPhase, DiscoverySession};
use mop::logging::{LogCategory, LogSeverity};
use mop::network::{get_local_network_range, get_primary_interface, NetworkError, NetworkInterface};
use mop::permissions::{check_local_network_permission, permission_from_multicast_test, request_permission_interactive, PermissionState};
use mop::scan::{dedup_hits, endpoint_url, is_presence_status, probe_urls, scan_hit, scan_targets, ScanTarget};
use mop::ssdp::{parse_ssdp_response, search_request, DiscoveryError, SsdpAction, SsdpCollector, SsdpEvent, MEDIA_SERVER_TARGET, ROOT_DEVICE_TARGET};
use mop::text::{str_contains, trim};
use mop::url_parts::extract_base_url;

fn response(location: &str, usn: &str) -> String {
    format!(
        "HTTP/1.1 200 OK\r\nCACHE-CONTROL: max-age=1800\r\nLOCATION: {}\r\nSERVER: Linux/5 UPnP/1.0 MiniDLNA/1.3\r\nST: upnp:rootdevice\r\nUSN: {}\r\n\r\n",
        location, usn
    )
}

#[test]
fn same_location_different_usn_gives_one_device() {
    let mut c = SsdpCollector::new();
    c.add_response(&response("http://192.168.1.5:8200/rootDesc.xml", "uuid:4d696e69-444c-164e-9d41-b827eb000001::upnp:rootdevice"));
    c.add_response(&response("http://192.168.1.5:8200/rootDesc.xml", "uuid:ffffffff-0000-164e-9d41-b827eb000001::urn:schemas-upnp-org:device:MediaServer:1"));
    assert_eq!(c.devices().len(), 1);
    c.add_response(&response("http://192.168.1.6:8200/rootDesc.xml", "uuid:abc"));
    assert_eq!(c.devices().len(), 2);
}

#[test]
fn ssdp_response_fields() {
    let d = parse_ssdp_response(&response("http://192.168.1.5:8200/rootDesc.xml", "uuid:4d696e69-444c::upnp:rootdevice")).expect("device");
    assert_eq!(d.location, "http://192.168.1.5:8200/rootDesc.xml");
    assert_eq!(d.base_url, "http://192.168.1.5:8200");
    assert_eq!(d.device_type, "upnp:rootdevice");
    assert_eq!(d.manufacturer, "Linux/5 UPnP/1.0 MiniDLNA/1.3");
    assert_eq!(d.friendly_name, "Device-4d696e69");
    assert_eq!(d.name, "Device-4d696e69 [upnp:rootdevice] (Linux/5 UPnP/1.0 MiniDLNA/1.3)");
}

#[test]
fn ssdp_headers_are_case_insensitive() {
    let d = parse_ssdp_response("HTTP/1.1 200 OK\r\nLocation: http://h/d.xml\r\nusn: uuid:ab\r\n").expect("device");
    assert_eq!(d.location, "http://h/d.xml");
    assert_eq!(d.base_url, "http://h:80");
    assert_eq!(d.friendly_name, "Device-ab");
    assert_eq!(d.manufacturer, "Unknown");
    assert_eq!(d.name, "Device-ab [Unknown]");
}

#[test]
fn ssdp_rejects_other_responses() {
    assert!(parse_ssdp_response("NOTIFY * HTTP/1.1\r\nLOCATION: http://h/d.xml\r\n").is_none());
    assert!(parse_ssdp_response("HTTP/1.1 200 OK\r\nST: upnp:rootdevice\r\n").is_none());
}

#[test]
fn ssdp_session_outcomes() {
    let mut c = SsdpCollector::new();
    assert!(matches!(c.handle(SsdpEvent::Idle), SsdpAction::KeepListening));
    assert!(matches!(c.handle(SsdpEvent::WindowClosed), SsdpAction::Finish(Err(DiscoveryError::NoDevicesFound))));
    assert!(matches!(c.handle(SsdpEvent::Failed("boom".to_string())), SsdpAction::Finish(Err(DiscoveryError::NetworkError(m))) if m == "boom"));
    assert!(matches!(c.handle(SsdpEvent::Received(response("http://h/d.xml", "uuid:1"))), SsdpAction::KeepListening));
    match c.handle(SsdpEvent::WindowClosed) {
        SsdpAction::Finish(Ok(ds)) => assert_eq!(ds.len(), 1),
        _ => panic!("expected devices"),
    }
    assert!(matches!(DiscoveryError::from_socket_failure(true, "x".to_string()), DiscoveryError::PermissionDenied));
    assert_eq!(DiscoveryError::NoDevicesFound.describe(), "No UPnP devices found on network");
}

#[test]
fn search_requests_are_exact() {
    assert_eq!(
        search_request(ROOT_DEVICE_TARGET),
        "M-SEARCH * HTTP/1.1\r\nHOST: 239.255.255.250:1900\r\nMAN: \"ssdp:discover\"\r\nST: upnp:rootdevice\r\nMX: 3\r\n\r\n"
    );
    assert!(search_request(MEDIA_SERVER_TARGET).contains("ST: urn:schemas-upnp-org:device:MediaServer:1\r\n"));
}

#[test]
fn base_urls() {
    assert_eq!(extract_base_url("http://192.168.1.5:8200/rootDesc.xml"), "http://192.168.1.5:8200");
    assert_eq!(extract_base_url("https://example.org/x"), "https://example.org:443");
    assert_eq!(extract_base_url("not a url"), "not a url");
}

const DESCRIPTION: &str = r#"<?xml version="1.0"?><root xmlns="urn:schemas-upnp-org:device-1-0"><device><friendlyName>Living Room</friendlyName><serviceList>
<service><serviceType>urn:schemas-upnp-org:service:ConnectionManager:1</serviceType><controlURL>/ctl/ConnectionMgr</controlURL></service>
<service><serviceType>urn:schemas-upnp-org:service:ContentDirectory:1</serviceType><controlURL>/ctl/ContentDir</controlURL></service>
</serviceList></device></root>"#;

#[test]
fn descriptor_resolves_relative_control_url() {
    assert_eq!(
        parse_content_directory_url(DESCRIPTION, "http://192.168.1.5:8200/rootDesc.xml").as_deref(),
        Some("http://192.168.1.5:8200/ctl/ContentDir")
    );
    assert_eq!(
        parse_content_directory_url(DESCRIPTION, "http://192.168.1.5/desc/rootDesc.xml").as_deref(),
        Some("http://192.168.1.5:80/ctl/ContentDir")
    );
    assert_eq!(friendly_name(DESCRIPTION).as_deref(), Some("Living Room"));
}

#[test]
fn descriptor_absolute_and_missing() {
    let abs = "<root><service><serviceType>x:ContentDirectory:1</serviceType><controlURL>http://other:9/cd</controlURL></service></root>";
    assert_eq!(parse_content_directory_url(abs, "http://h:1/d.xml").as_deref(), Some("http://other:9/cd"));
    let none = "<root><service><serviceType>x:AVTransport:1</serviceType><controlURL>/av</controlURL></service></root>";
    assert_eq!(parse_content_directory_url(none, "http://h:1/d.xml"), None);
    assert_eq!(parse_content_directory_url(DESCRIPTION, "::bad::"), None);
    assert_eq!(resolve_content_directory(404, DESCRIPTION, "http://h:1/d.xml"), None);
    assert!(resolve_content_directory(200, DESCRIPTION, "http://h:1/d.xml").is_some());
}

fn target(host: &str, port: u16) -> ScanTarget {
    ScanTarget { host: host.to_string(), port }
}

#[test]
fn unauthorized_port_is_a_hit() {
    let d = scan_hit(&target("192.168.1.10", 8096), 401, "").expect("hit");
    assert_eq!(d.location, "http://192.168.1.10:8096");
    assert_eq!(d.base_url, "http://192.168.1.10:8096");
    assert_eq!(d.name, "Jellyfin Server (192.168.1.10:8096)");
    assert!(scan_hit(&target("192.168.1.10", 32400), 200, "").is_some());
    assert!(scan_hit(&target("192.168.1.10", 32400), 404, "").is_none());
    assert!(is_presence_status(401) && is_presence_status(204) && !is_presence_status(403));
}

#[test]
fn dlna_port_reads_the_description() {
    let t = target("192.168.1.20", 32469);
    assert_eq!(probe_urls(&t), vec!["http://192.168.1.20:32469/DeviceDescription.xml".to_string()]);
    let d = scan_hit(&t, 200, DESCRIPTION).expect("hit");
    assert_eq!(d.name, "Living Room");
    assert_eq!(d.location, "http://192.168.1.20:32469/DeviceDescription.xml");
    assert_eq!(d.content_directory_url.as_deref(), Some("http://192.168.1.20:32469/ctl/ContentDir"));
    assert!(scan_hit(&t, 401, DESCRIPTION).is_none());
}

#[test]
fn scan_targets_cover_hosts_and_ports() {
    let ts = scan_targets("192.168.1");
    assert_eq!(ts.len(), 40);
    assert_eq!(ts[0].host, "192.168.1.1");
    assert_eq!(ts[0].port, 32400);
    assert_eq!(ts[1].port, 32469);
    assert_eq!(ts[39].host, "192.168.1.254");
    assert_eq!(ts[39].port, 8920);
    assert_eq!(endpoint_url(&ts[2]), "http://192.168.1.1:8096");
    assert_eq!(probe_urls(&ts[0]).len(), 3);
    assert_eq!(probe_urls(&ts[0])[1], "http://192.168.1.1:32400/status");
}

fn dev(location: &str, base: &str, name: &str) -> UpnpDevice {
    UpnpDevice {
        name: name.to_string(),
        location: location.to_string(),
        base_url: base.to_string(),
        device_client: None,
        content_directory_url: None,
    }
}

#[test]
fn scan_hits_dedup_by_location_and_base() {
    let hits = vec![dev("a", "b", "1"), dev("a", "b", "2"), dev("a", "c", "3")];
    let kept = dedup_hits(&hits);
    assert_eq!(kept.len(), 2);
    assert_eq!(kept[0].name, "1");
    assert_eq!(kept[1].name, "3");
}

#[test]
fn overlapping_probes_give_one_final_list() {
    let mut s = DiscoverySession::new();
    assert_eq!(s.start().len(), 1);
    assert!(s.start().is_empty());
    let mut msgs = Vec::new();
    msgs.extend(s.probe_finished(DiscoveryPhase::Multicast, Ok(vec![dev("x", "bx", "first"), dev("y", "by", "y")])));
    msgs.extend(s.probe_finished(DiscoveryPhase::PortScan, Ok(vec![dev("x", "bx", "second"), dev("z", "bz", "z")])));
    let finals: Vec<&Vec<UpnpDevice>> = msgs
        .iter()
        .filter_map(|m| match m {
            DiscoveryMessage::AllComplete(ds) => Some(ds),
            _ => None,
        })
        .collect();
    assert_eq!(finals.len(), 1);
    let locs: Vec<&str> = finals[0].iter().map(|d| d.location.as_str()).collect();
    assert_eq!(locs, vec!["x", "y", "z"]);
    assert_eq!(finals[0][0].name, "first");
    assert!(s.is_complete());
}

#[test]
fn failed_probe_reports_error_and_continues() {
    let mut s = DiscoverySession::new();
    s.start();
    let m = s.probe_finished(DiscoveryPhase::Multicast, Err("No UPnP devices found on network".to_string()));
    assert_eq!(m.len(), 2);
    assert!(matches!(&m[0], DiscoveryMessage::Error(e) if e == "SSDP discovery failed: No UPnP devices found on network"));
    assert!(matches!(m[1], DiscoveryMessage::PhaseComplete(DiscoveryPhase::Multicast)));
    let m = s.probe_finished(DiscoveryPhase::PortScan, Ok(vec![dev("a", "b", "n")]));
    assert!(matches!(&m[m.len() - 1], DiscoveryMessage::AllComplete(ds) if ds.len() == 1));
    assert!(s.permission_checked(PermissionState::Granted).is_none());
    assert!(matches!(s.permission_checked(PermissionState::Denied), Some(DiscoveryMessage::Error(_))));
}

#[test]
fn ssdp_device_conversion() {
    let d = parse_ssdp_response(&response("http://192.168.1.5:8200/rootDesc.xml", "uuid:1")).unwrap();
    assert_eq!(
        find_content_directory_service("http://192.168.1.5:8200/rootDesc.xml", None).as_deref(),
        Some("http://192.168.1.5:8200/ContentDirectory/control")
    );
    assert_eq!(
        find_content_directory_service("http://192.168.1.5/rootDesc.xml", None).as_deref(),
        Some("http://192.168.1.5:32400/ContentDirectory/control")
    );
    let u = convert_to_upnp_device(d, Some("http://c".to_string()));
    assert_eq!(u.device_client.as_deref(), Some("Linux/5 UPnP/1.0 MiniDLNA/1.3"));
    assert_eq!(u.content_directory_url.as_deref(), Some("http://c"));
}

#[test]
fn permissions_and_logging_vocabulary() {
    assert_eq!(check_local_network_permission(), PermissionState::Granted);
    assert!(matches!(request_permission_interactive(), Ok(PermissionState::Granted)));
    assert_eq!(permission_from_multicast_test(&Err(DiscoveryError::PermissionDenied)), PermissionState::Denied);
    assert_eq!(permission_from_multicast_test(&Err(DiscoveryError::Timeout)), PermissionState::Unknown);
    assert_eq!(LogCategory::Soap.as_str(), "SOAP");
    assert_eq!(LogSeverity::Warn.as_str(), "WARN");
    assert_eq!(LogCategory::from_target("MOP::SSDP"), LogCategory::Disc);
    assert_eq!(LogCategory::from_target("mop::net"), LogCategory::Net);
    assert_eq!(LogCategory::from_target("main"), LogCategory::App);
}

#[test]
fn network_prefix_and_primary_interface() {
    let iface = |name: &str, o: [u8; 4], lo: bool, mc: bool| NetworkInterface { name: name.to_string(), octets: o, is_loopback: lo, supports_multicast: mc };
    assert_eq!(get_local_network_range(&iface("e", [192, 168, 1, 23], false, true)).as_deref(), Some("192.168.1"));
    assert_eq!(get_local_network_range(&iface("e", [172, 20, 3, 4], false, true)).as_deref(), Some("172.20.3"));
    assert_eq!(get_local_network_range(&iface("e", [8, 8, 8, 8], false, true)), None);
    let list = vec![iface("lo", [127, 0, 0, 1], true, false), iface("eth0", [10, 0, 0, 2], false, true)];
    assert_eq!(get_primary_interface(&list).unwrap().name, "eth0");
    assert!(matches!(get_primary_interface(&vec![]), Err(NetworkError::NoValidInterfaces)));
}

#[test]
fn text_helpers() {
    assert_eq!(trim("\t  a b \r\n"), "a b");
    assert!(str_contains("xx SOAP-ENV:Fault", "SOAP-ENV:Fault"));
    assert!(!str_contains("soap", "soap:Fault"));
}
