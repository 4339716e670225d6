use sniffer_parser::outcome::MalformedReason;
use sniffer_parser::tls::{decode_tls, TlsContentType, TlsDecode};

#[test]
fn one_handshake_record_reports_type_version_length_and_message() {
    // handshake (22), TLS 1.0 (3, 1), length 1, first payload byte 1 = client hello
    let buffer = [22u8, 3, 1, 0, 1, 1];
    match decode_tls(&buffer) {
        TlsDecode::Complete(records) => {
            assert_eq!(records.len(), 1);
            assert_eq!(records[0].content_type, TlsContentType::Handshake);
            assert_eq!(records[0].version, 0x0301);
            assert_eq!(records[0].length, 1);
            assert_eq!(records[0].handshake_type, Some(1));
        }
        other => panic!("expected a complete batch, got {:?}", other),
    }
}

#[test]
fn consumes_every_complete_record_in_the_buffer() {
    let mut buffer = vec![20u8, 3, 3, 0, 1, 1]; // change cipher spec
    buffer.extend_from_slice(&[23u8, 3, 3, 0, 2, 9, 9]); // application data
    match decode_tls(&buffer) {
        TlsDecode::Complete(records) => {
            assert_eq!(records.len(), 2);
            assert_eq!(records[0].content_type, TlsContentType::ChangeCipherSpec);
            assert_eq!(records[0].handshake_type, None);
            assert_eq!(records[1].content_type, TlsContentType::ApplicationData);
            assert_eq!(records[1].length, 2);
        }
        other => panic!("expected a complete batch, got {:?}", other),
    }
}

#[test]
fn fewer_than_five_bytes_is_incomplete() {
    let buffer = [22u8, 3, 1, 0];
    assert!(matches!(decode_tls(&buffer), TlsDecode::Incomplete));
}

#[test]
fn fewer_bytes_than_the_declared_length_is_incomplete() {
    let buffer = [21u8, 3, 3, 0, 10, 1, 2, 3];
    assert!(matches!(decode_tls(&buffer), TlsDecode::Incomplete));
}

#[test]
fn one_complete_record_followed_by_a_partial_one_is_a_batch_of_one() {
    let mut buffer = vec![21u8, 3, 3, 0, 2, 1, 0]; // complete alert
    buffer.extend_from_slice(&[23u8, 3, 3, 0, 50, 1]); // partial application data
    match decode_tls(&buffer) {
        TlsDecode::Complete(records) => {
            assert_eq!(records.len(), 1);
            assert_eq!(records[0].content_type, TlsContentType::Alert);
        }
        other => panic!("expected a complete batch, got {:?}", other),
    }
}

#[test]
fn unknown_content_type_is_malformed() {
    let buffer = [99u8, 3, 3, 0, 1, 0];
    match decode_tls(&buffer) {
        TlsDecode::Malformed(e) => assert_eq!(e, MalformedReason::TlsInvalidContentType),
        other => panic!("expected malformed, got {:?}", other),
    }
}
