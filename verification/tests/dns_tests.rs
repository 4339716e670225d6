use sniffer_parser::dns::decode_dns;
use sniffer_parser::outcome::MalformedReason;

fn header(id: u16, flags: u16, qd: u16, an: u16, ns: u16, ar: u16) -> Vec<u8> {
    let mut v = Vec::new();
    for field in [id, flags, qd, an, ns, ar] {
        v.push((field >> 8) as u8);
        v.push((field & 0xFF) as u8);
    }
    v
}

#[test]
fn shorter_than_twelve_bytes_is_malformed_never_partial() {
    for len in 0..12usize {
        let payload = vec![0u8; len];
        assert_eq!(decode_dns(&payload).unwrap_err(), MalformedReason::DnsTooShort);
    }
}

#[test]
fn decodes_question_and_compressed_answer_name() {
    let mut payload = header(0x1234, 0x0100, 1, 1, 0, 0);
    // question: name "ab.c", type A (1), class IN (1)
    payload.extend_from_slice(&[2, b'a', b'b', 1, b'c', 0, 0, 1, 0, 1]);
    // answer: name = pointer to offset 12, type A, class IN, ttl 60, 4 data bytes
    payload.extend_from_slice(&[0xC0, 12, 0, 1, 0, 1, 0, 0, 0, 60, 0, 4, 10, 0, 0, 7]);
    let msg = decode_dns(&payload).unwrap();
    assert_eq!(msg.id, 0x1234);
    assert_eq!(msg.flags, 0x0100);
    assert_eq!(msg.questions.len(), 1);
    assert_eq!(msg.questions[0].name, b"ab.c".to_vec());
    assert_eq!(msg.questions[0].qtype, 1);
    assert_eq!(msg.questions[0].qclass, 1);
    assert_eq!(msg.answers.len(), 1);
    assert_eq!(msg.answers[0].name, b"ab.c".to_vec());
    assert_eq!(msg.answers[0].ttl, 60);
    assert_eq!(msg.answers[0].data, vec![10, 0, 0, 7]);
    assert!(msg.authorities.is_empty());
    assert!(msg.additionals.is_empty());
}

#[test]
fn label_running_past_the_payload_is_a_bad_name() {
    let mut payload = header(1, 0, 1, 0, 0, 0);
    payload.extend_from_slice(&[5, b'a', b'b']);
    assert_eq!(decode_dns(&payload).unwrap_err(), MalformedReason::DnsBadName);
}

#[test]
fn pointer_loop_is_a_bad_name() {
    let mut payload = header(1, 0, 1, 0, 0, 0);
    // a pointer that points at itself can never terminate
    payload.extend_from_slice(&[0xC0, 12, 0, 1, 0, 1]);
    assert_eq!(decode_dns(&payload).unwrap_err(), MalformedReason::DnsBadName);
}

#[test]
fn question_without_its_fixed_fields_is_truncated() {
    let mut payload = header(1, 0, 1, 0, 0, 0);
    payload.extend_from_slice(&[0, 0, 1]); // root name, then only 3 of 4 bytes
    assert_eq!(decode_dns(&payload).unwrap_err(), MalformedReason::DnsTruncated);
}

#[test]
fn record_data_running_past_the_payload_is_truncated() {
    let mut payload = header(1, 0, 0, 1, 0, 0);
    // answer: root name, type, class, ttl, declared 4 data bytes, only 1 present
    payload.extend_from_slice(&[0, 0, 1, 0, 1, 0, 0, 0, 60, 0, 4, 1]);
    assert_eq!(decode_dns(&payload).unwrap_err(), MalformedReason::DnsTruncated);
}

#[test]
fn counts_declaring_absent_entries_are_truncated() {
    let payload = header(1, 0, 3, 0, 0, 0);
    assert_eq!(decode_dns(&payload).unwrap_err(), MalformedReason::DnsBadName);
}
