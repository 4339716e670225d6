use sniffer_parser::classify::{classify, http_packet_type, HttpPacketType, Protocol};
use sniffer_parser::flow::{FlowKey, IpAddress};
use sniffer_parser::store::ReassemblyStore;

fn key() -> FlowKey {
    FlowKey::new(IpAddress::V4(0x0A000001), 40000, IpAddress::V4(0x0A000002), 80)
}

#[test]
fn classify_matches_well_known_ports_on_either_side() {
    assert_eq!(classify(40000, 80), Some(Protocol::Http));
    assert_eq!(classify(80, 40000), Some(Protocol::Http));
    assert_eq!(classify(40000, 443), Some(Protocol::Tls));
    assert_eq!(classify(443, 40000), Some(Protocol::Tls));
    assert_eq!(classify(53, 40000), Some(Protocol::Dns));
    assert_eq!(classify(40000, 53), Some(Protocol::Dns));
    assert_eq!(classify(502, 40000), Some(Protocol::Modbus));
    assert_eq!(classify(40000, 502), Some(Protocol::Modbus));
    assert_eq!(classify(40000, 50000), None);
}

#[test]
fn classify_tie_break_is_http_then_tls_then_dns_then_modbus() {
    assert_eq!(classify(80, 443), Some(Protocol::Http));
    assert_eq!(classify(443, 53), Some(Protocol::Tls));
    assert_eq!(classify(53, 502), Some(Protocol::Dns));
}

#[test]
fn http_direction_follows_the_well_known_port() {
    assert_eq!(http_packet_type(40000, 80), HttpPacketType::Request);
    assert_eq!(http_packet_type(80, 40000), HttpPacketType::Response);
}

#[test]
fn snapshot_equals_concatenation_of_appends_in_order() {
    let mut store = ReassemblyStore::new();
    let k = key();
    store.append(k, b"GET ");
    store.append(k, b"/index.html");
    store.append(k, b" HTTP/1.1");
    let snap = store.snapshot(k).unwrap();
    assert_eq!(snap.as_slice(), b"GET /index.html HTTP/1.1");
}

#[test]
fn snapshot_of_absent_flow_is_none() {
    let store = ReassemblyStore::new();
    assert!(store.snapshot(key()).is_none());
}

#[test]
fn clear_removes_the_entry_entirely() {
    let mut store = ReassemblyStore::new();
    let k = key();
    store.append(k, b"abc");
    store.clear(k);
    assert!(store.snapshot(k).is_none());
}

#[test]
fn flows_are_directional_and_independent() {
    let mut store = ReassemblyStore::new();
    let forward = key();
    let reverse = FlowKey::new(IpAddress::V4(0x0A000002), 80, IpAddress::V4(0x0A000001), 40000);
    store.append(forward, b"request");
    store.append(reverse, b"response");
    assert_eq!(store.snapshot(forward).unwrap().as_slice(), b"request");
    assert_eq!(store.snapshot(reverse).unwrap().as_slice(), b"response");
}
