use sniffer_parser::dispatch::{handle_application_protocol, REASSEMBLY_CEILING};
use sniffer_parser::flow::{FlowKey, IpAddress};
use sniffer_parser::modbus::ModbusError;
use sniffer_parser::outcome::MalformedReason;
use sniffer_parser::record::{ParsedPacket, SerializablePacket};
use sniffer_parser::store::ReassemblyStore;
use sniffer_parser::tls::TlsContentType;

const CLIENT: IpAddress = IpAddress::V4(0x0A000001);
const SERVER: IpAddress = IpAddress::V4(0x0A000002);

struct Engine {
    http_store: ReassemblyStore,
    tls_store: ReassemblyStore,
}

impl Engine {
    fn new() -> Engine {
        Engine { http_store: ReassemblyStore::new(), tls_store: ReassemblyStore::new() }
    }

    fn feed(
        &mut self,
        source_port: u16,
        dest_port: u16,
        is_fin: bool,
        payload: &[u8],
        record: &mut ParsedPacket,
    ) {
        handle_application_protocol(
            CLIENT,
            source_port,
            SERVER,
            dest_port,
            is_fin,
            payload,
            &mut self.http_store,
            &mut self.tls_store,
            record,
        );
    }
}

#[test]
fn http_request_split_across_two_segments_completes_on_the_second() {
    let mut engine = Engine::new();
    let mut record = ParsedPacket::new(1);
    engine.feed(40000, 80, false, b"POST /submit HTTP/1.1\r\nContent-Length: 5\r\n\r\n", &mut record);
    assert!(record.get_application_layer_packet().is_none(), "first segment must stay pending");

    let mut record2 = ParsedPacket::new(2);
    engine.feed(40000, 80, false, b"hello", &mut record2);
    match record2.get_application_layer_packet() {
        Some(SerializablePacket::HttpRequestPacket(req)) => {
            assert_eq!(req.method, b"POST".to_vec());
            assert_eq!(req.body, b"hello".to_vec());
        }
        other => panic!("expected a complete request, got {:?}", other),
    }
    let key = FlowKey::new(CLIENT, 40000, SERVER, 80);
    assert!(engine.http_store.snapshot(key).is_none(), "buffer must be cleared after a decode");
}

#[test]
fn http_response_flow_uses_the_status_line_grammar() {
    let mut engine = Engine::new();
    let mut record = ParsedPacket::new(1);
    engine.feed(80, 40000, false, b"HTTP/1.1 404 Not Found\r\nContent-Length: 0\r\n\r\n", &mut record);
    match record.get_application_layer_packet() {
        Some(SerializablePacket::HttpResponsePacket(resp)) => {
            assert_eq!(resp.status, 404);
            assert_eq!(resp.reason, b"Not Found".to_vec());
            assert_eq!(resp.body, Vec::<u8>::new());
        }
        other => panic!("expected a complete response, got {:?}", other),
    }
}

#[test]
fn http_stream_closing_without_declared_length_takes_the_rest_as_body() {
    let mut engine = Engine::new();
    let mut record = ParsedPacket::new(1);
    engine.feed(80, 40000, false, b"HTTP/1.1 200 OK\r\nServer: s\r\n\r\npartial body", &mut record);
    assert!(record.get_application_layer_packet().is_none());

    let mut record2 = ParsedPacket::new(2);
    engine.feed(80, 40000, true, b" end", &mut record2);
    match record2.get_application_layer_packet() {
        Some(SerializablePacket::HttpResponsePacket(resp)) => {
            assert_eq!(resp.body, b"partial body end".to_vec());
        }
        other => panic!("expected a complete response, got {:?}", other),
    }
}

#[test]
fn http_stream_closing_mid_headers_is_truncated() {
    let mut engine = Engine::new();
    let mut record = ParsedPacket::new(1);
    engine.feed(40000, 80, true, b"GET / HT", &mut record);
    match record.get_application_layer_packet() {
        Some(SerializablePacket::MalformedPacket(e)) => {
            assert_eq!(*e, MalformedReason::Truncated)
        }
        other => panic!("expected truncated, got {:?}", other),
    }
    let key = FlowKey::new(CLIENT, 40000, SERVER, 80);
    assert!(engine.http_store.snapshot(key).is_none());
}

#[test]
fn repeated_appends_without_a_message_trigger_the_oversized_path() {
    let mut engine = Engine::new();
    let junk = vec![b'A'; 65536];
    let mut saw_oversized = false;
    for i in 0..18usize {
        let mut record = ParsedPacket::new(i);
        engine.feed(40000, 80, false, &junk, &mut record);
        match record.get_application_layer_packet() {
            None => {}
            Some(SerializablePacket::MalformedPacket(e)) => {
                assert_eq!(*e, MalformedReason::Oversized);
                assert!(
                    (i + 1) * junk.len() > REASSEMBLY_CEILING,
                    "the ceiling fired before it was exceeded"
                );
                saw_oversized = true;
                break;
            }
            other => panic!("unexpected record {:?}", other),
        }
    }
    assert!(saw_oversized, "the buffer grew without bound");
    let key = FlowKey::new(CLIENT, 40000, SERVER, 80);
    assert!(engine.http_store.snapshot(key).is_none(), "the oversized buffer must be cleared");
}

#[test]
fn tls_records_spanning_segments_complete_when_a_record_does() {
    let mut engine = Engine::new();
    let mut record = ParsedPacket::new(1);
    engine.feed(40000, 443, false, &[22u8, 3, 1, 0, 3], &mut record);
    assert!(record.get_application_layer_packet().is_none());

    let mut record2 = ParsedPacket::new(2);
    engine.feed(40000, 443, false, &[1u8, 0, 0], &mut record2);
    match record2.get_application_layer_packet() {
        Some(SerializablePacket::TlsPacket(batch)) => {
            assert_eq!(batch.records.len(), 1);
            assert_eq!(batch.records[0].content_type, TlsContentType::Handshake);
            assert_eq!(batch.records[0].handshake_type, Some(1));
        }
        other => panic!("expected a record batch, got {:?}", other),
    }
    let key = FlowKey::new(CLIENT, 40000, SERVER, 443);
    assert!(engine.tls_store.snapshot(key).is_none());
}

#[test]
fn tls_stream_closing_with_a_partial_record_is_truncated() {
    let mut engine = Engine::new();
    let mut record = ParsedPacket::new(1);
    engine.feed(40000, 443, true, &[22u8, 3, 1], &mut record);
    match record.get_application_layer_packet() {
        Some(SerializablePacket::MalformedPacket(e)) => {
            assert_eq!(*e, MalformedReason::Truncated)
        }
        other => panic!("expected truncated, got {:?}", other),
    }
}

#[test]
fn dns_payload_attaches_the_decoded_message() {
    let mut engine = Engine::new();
    let mut record = ParsedPacket::new(1);
    let mut payload = vec![0x00u8, 7, 0x01, 0x00, 0, 1, 0, 0, 0, 0, 0, 0];
    payload.extend_from_slice(&[1, b'x', 0, 0, 1, 0, 1]);
    engine.feed(40000, 53, false, &payload, &mut record);
    match record.get_application_layer_packet() {
        Some(SerializablePacket::DnsPacket(msg)) => {
            assert_eq!(msg.id, 7);
            assert_eq!(msg.questions[0].name, b"x".to_vec());
        }
        other => panic!("expected a DNS record, got {:?}", other),
    }
}

#[test]
fn short_dns_payload_attaches_malformed() {
    let mut engine = Engine::new();
    let mut record = ParsedPacket::new(1);
    engine.feed(40000, 53, false, &[1, 2, 3], &mut record);
    match record.get_application_layer_packet() {
        Some(SerializablePacket::MalformedPacket(e)) => {
            assert_eq!(*e, MalformedReason::DnsTooShort)
        }
        other => panic!("expected malformed, got {:?}", other),
    }
}

#[test]
fn modbus_payload_attaches_the_decoded_frame() {
    let mut engine = Engine::new();
    let mut record = ParsedPacket::new(1);
    engine.feed(40000, 502, false, &[0x01, 0x03, 0xAA, 0xBB, 0xCC, 0xDD], &mut record);
    match record.get_application_layer_packet() {
        Some(SerializablePacket::ModbusPacket(frame)) => {
            assert_eq!(frame.address, 1);
            assert_eq!(frame.function_code, 3);
            assert_eq!(frame.data, vec![0xAA, 0xBB]);
            assert_eq!(frame.crc, Some(0xDDCC));
        }
        other => panic!("expected a Modbus frame, got {:?}", other),
    }
}

#[test]
fn bad_modbus_payload_attaches_malformed_with_the_sub_kind() {
    let mut engine = Engine::new();
    let mut record = ParsedPacket::new(1);
    engine.feed(40000, 502, false, &[0x01, 0x00, 0xAA, 0xBB, 0xCC, 0xDD], &mut record);
    match record.get_application_layer_packet() {
        Some(SerializablePacket::MalformedPacket(e)) => {
            assert_eq!(*e, MalformedReason::Modbus(ModbusError::InvalidFunctionCode))
        }
        other => panic!("expected malformed, got {:?}", other),
    }
}

#[test]
fn unmatched_ports_attach_nothing() {
    let mut engine = Engine::new();
    let mut record = ParsedPacket::new(1);
    engine.feed(40000, 50000, false, b"whatever", &mut record);
    assert!(record.get_application_layer_packet().is_none());
}

#[test]
fn record_slots_start_empty_and_keep_their_id() {
    let record = ParsedPacket::new(42);
    assert_eq!(record.get_id(), 42);
    assert!(record.get_link_layer_packet().is_none());
    assert!(record.get_network_layer_packet().is_none());
    assert!(record.get_transport_layer_packet().is_none());
    assert!(record.get_application_layer_packet().is_none());
}

#[test]
fn stream_closing_with_an_empty_buffer_clears_the_entry_and_attaches_nothing() {
    let mut engine = Engine::new();
    let mut record = ParsedPacket::new(1);
    engine.feed(40000, 80, true, b"", &mut record);
    assert!(record.get_application_layer_packet().is_none());
    let key = FlowKey::new(CLIENT, 40000, SERVER, 80);
    assert!(engine.http_store.snapshot(key).is_none());
}

#[test]
fn segments_of_different_flows_do_not_mix() {
    let mut engine = Engine::new();
    let mut record = ParsedPacket::new(1);
    engine.feed(40000, 80, false, b"POST /a HTTP/1.1\r\nContent-Length: 2\r\n\r\n", &mut record);
    let mut record2 = ParsedPacket::new(2);
    engine.feed(40001, 80, false, b"GET /b HTTP/1.1\r\nContent-Length: 0\r\n\r\n", &mut record2);
    match record2.get_application_layer_packet() {
        Some(SerializablePacket::HttpRequestPacket(req)) => {
            assert_eq!(req.path, b"/b".to_vec());
        }
        other => panic!("expected the second flow's request, got {:?}", other),
    }
    let mut record3 = ParsedPacket::new(3);
    engine.feed(40000, 80, false, b"ok", &mut record3);
    match record3.get_application_layer_packet() {
        Some(SerializablePacket::HttpRequestPacket(req)) => {
            assert_eq!(req.path, b"/a".to_vec());
            assert_eq!(req.body, b"ok".to_vec());
        }
        other => panic!("expected the first flow's request, got {:?}", other),
    }
}
