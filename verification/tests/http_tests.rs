use std::io::Write;

use flate2::write::{DeflateEncoder, GzEncoder, ZlibEncoder};
use flate2::Compression;
use sniffer_parser::classify::HttpPacketType;
use sniffer_parser::http::{decode_http, HttpDecode};
use sniffer_parser::outcome::MalformedReason;

fn response_with(headers: &str, body: &[u8]) -> Vec<u8> {
    let mut v = Vec::new();
    v.extend_from_slice(b"HTTP/1.1 200 OK\r\n");
    v.extend_from_slice(headers.as_bytes());
    v.extend_from_slice(b"\r\n");
    v.extend_from_slice(body);
    v
}

#[test]
fn request_with_content_length_decodes_exactly_that_body() {
    let buffer = b"POST /submit HTTP/1.1\r\nHost: example\r\nContent-Length: 5\r\n\r\nhello";
    match decode_http(buffer, HttpPacketType::Request, false) {
        HttpDecode::CompleteRequest(req) => {
            assert_eq!(req.method, b"POST".to_vec());
            assert_eq!(req.path, b"/submit".to_vec());
            assert_eq!(req.version, b"HTTP/1.1".to_vec());
            assert_eq!(req.headers.len(), 2);
            assert_eq!(req.headers[0].name, b"Host".to_vec());
            assert_eq!(req.headers[0].value, b"example".to_vec());
            assert_eq!(req.body, b"hello".to_vec());
        }
        other => panic!("expected a complete request, got {:?}", other),
    }
}

#[test]
fn chunked_response_assembles_the_chunks() {
    let buffer = response_with("Transfer-Encoding: chunked\r\n", b"4\r\nWiki\r\n0\r\n\r\n");
    match decode_http(&buffer, HttpPacketType::Response, false) {
        HttpDecode::CompleteResponse(resp) => {
            assert_eq!(resp.version, b"HTTP/1.1".to_vec());
            assert_eq!(resp.status, 200);
            assert_eq!(resp.reason, b"OK".to_vec());
            assert_eq!(resp.body, b"Wiki".to_vec());
        }
        other => panic!("expected a complete response, got {:?}", other),
    }
}

#[test]
fn chunked_body_with_two_chunks_concatenates_them() {
    let buffer = response_with(
        "Transfer-Encoding: chunked\r\n",
        b"3\r\nabc\r\n2\r\nde\r\n0\r\n\r\n",
    );
    match decode_http(&buffer, HttpPacketType::Response, false) {
        HttpDecode::CompleteResponse(resp) => assert_eq!(resp.body, b"abcde".to_vec()),
        other => panic!("expected a complete response, got {:?}", other),
    }
}

#[test]
fn missing_terminator_is_incomplete() {
    let buffer = b"GET / HTTP/1.1\r\nHost: example\r\n";
    assert!(matches!(decode_http(buffer, HttpPacketType::Request, false), HttpDecode::Incomplete));
}

#[test]
fn short_content_length_body_is_incomplete() {
    let buffer = b"POST / HTTP/1.1\r\nContent-Length: 10\r\n\r\nabc";
    assert!(matches!(decode_http(buffer, HttpPacketType::Request, false), HttpDecode::Incomplete));
}

#[test]
fn body_without_declared_length_completes_at_end_of_stream() {
    let buffer = b"HTTP/1.1 200 OK\r\nHost: example\r\n\r\npayload bytes";
    assert!(matches!(
        decode_http(buffer, HttpPacketType::Response, false),
        HttpDecode::Incomplete
    ));
    match decode_http(buffer, HttpPacketType::Response, true) {
        HttpDecode::CompleteResponse(resp) => assert_eq!(resp.body, b"payload bytes".to_vec()),
        other => panic!("expected a complete response, got {:?}", other),
    }
}

#[test]
fn start_line_without_spaces_is_malformed() {
    let buffer = b"NONSENSE\r\nContent-Length: 0\r\n\r\n";
    match decode_http(buffer, HttpPacketType::Request, false) {
        HttpDecode::Malformed(e) => assert_eq!(e, MalformedReason::HttpBadStartLine),
        other => panic!("expected malformed, got {:?}", other),
    }
}

#[test]
fn status_line_without_three_digit_status_is_malformed() {
    let buffer = b"HTTP/1.1 20x OK\r\n\r\n";
    match decode_http(buffer, HttpPacketType::Response, true) {
        HttpDecode::Malformed(e) => assert_eq!(e, MalformedReason::HttpBadStartLine),
        other => panic!("expected malformed, got {:?}", other),
    }
}

#[test]
fn header_line_without_colon_is_malformed() {
    let buffer = b"GET / HTTP/1.1\r\nBadHeader\r\n\r\n";
    match decode_http(buffer, HttpPacketType::Request, true) {
        HttpDecode::Malformed(e) => assert_eq!(e, MalformedReason::HttpBadHeader),
        other => panic!("expected malformed, got {:?}", other),
    }
}

#[test]
fn chunk_size_that_is_not_hexadecimal_is_malformed() {
    let buffer = response_with("Transfer-Encoding: chunked\r\n", b"xyz\r\nWiki\r\n0\r\n\r\n");
    match decode_http(&buffer, HttpPacketType::Response, false) {
        HttpDecode::Malformed(e) => assert_eq!(e, MalformedReason::HttpBadChunk),
        other => panic!("expected malformed, got {:?}", other),
    }
}

#[test]
fn content_length_that_is_not_a_number_is_malformed() {
    let buffer = b"POST / HTTP/1.1\r\nContent-Length: five\r\n\r\nhello";
    match decode_http(buffer, HttpPacketType::Request, false) {
        HttpDecode::Malformed(e) => assert_eq!(e, MalformedReason::HttpBadContentLength),
        other => panic!("expected malformed, got {:?}", other),
    }
}

#[test]
fn unknown_transfer_encoding_is_malformed() {
    let buffer = response_with("Transfer-Encoding: rot13\r\n", b"");
    match decode_http(&buffer, HttpPacketType::Response, false) {
        HttpDecode::Malformed(e) => {
            assert_eq!(e, MalformedReason::HttpUnsupportedTransferEncoding)
        }
        other => panic!("expected malformed, got {:?}", other),
    }
}

#[test]
fn unknown_content_encoding_is_malformed() {
    let buffer = response_with("Content-Encoding: br\r\nContent-Length: 2\r\n", b"ab");
    match decode_http(&buffer, HttpPacketType::Response, false) {
        HttpDecode::Malformed(e) => assert_eq!(e, MalformedReason::HttpUnsupportedContentEncoding),
        other => panic!("expected malformed, got {:?}", other),
    }
}

#[test]
fn gzip_body_is_stored_decompressed() {
    let mut encoder = GzEncoder::new(Vec::new(), Compression::default());
    encoder.write_all(b"Hello, decompressed world!").unwrap();
    let compressed = encoder.finish().unwrap();
    let headers = format!("Content-Encoding: gzip\r\nContent-Length: {}\r\n", compressed.len());
    let buffer = response_with(&headers, &compressed);
    match decode_http(&buffer, HttpPacketType::Response, false) {
        HttpDecode::CompleteResponse(resp) => {
            assert_eq!(resp.body, b"Hello, decompressed world!".to_vec())
        }
        other => panic!("expected a complete response, got {:?}", other),
    }
}

#[test]
fn zlib_body_is_stored_decompressed() {
    let mut encoder = ZlibEncoder::new(Vec::new(), Compression::default());
    encoder.write_all(b"zlib payload").unwrap();
    let compressed = encoder.finish().unwrap();
    let headers = format!("Content-Encoding: zlib\r\nContent-Length: {}\r\n", compressed.len());
    let buffer = response_with(&headers, &compressed);
    match decode_http(&buffer, HttpPacketType::Response, false) {
        HttpDecode::CompleteResponse(resp) => assert_eq!(resp.body, b"zlib payload".to_vec()),
        other => panic!("expected a complete response, got {:?}", other),
    }
}

#[test]
fn deflate_body_is_stored_decompressed() {
    let mut encoder = DeflateEncoder::new(Vec::new(), Compression::default());
    encoder.write_all(b"deflate payload").unwrap();
    let compressed = encoder.finish().unwrap();
    let headers = format!(
        "Content-Encoding: deflate\r\nContent-Length: {}\r\n",
        compressed.len()
    );
    let buffer = response_with(&headers, &compressed);
    match decode_http(&buffer, HttpPacketType::Response, false) {
        HttpDecode::CompleteResponse(resp) => assert_eq!(resp.body, b"deflate payload".to_vec()),
        other => panic!("expected a complete response, got {:?}", other),
    }
}

#[test]
fn failed_decompression_is_malformed() {
    let buffer = response_with("Content-Encoding: gzip\r\nContent-Length: 4\r\n", b"junk");
    match decode_http(&buffer, HttpPacketType::Response, false) {
        HttpDecode::Malformed(e) => assert_eq!(e, MalformedReason::HttpDecompressionFailed),
        other => panic!("expected malformed, got {:?}", other),
    }
}

#[test]
fn header_names_match_regardless_of_ascii_case() {
    let buffer = response_with("TRANSFER-ENCODING: CHUNKED\r\n", b"2\r\nhi\r\n0\r\n\r\n");
    match decode_http(&buffer, HttpPacketType::Response, false) {
        HttpDecode::CompleteResponse(resp) => assert_eq!(resp.body, b"hi".to_vec()),
        other => panic!("expected a complete response, got {:?}", other),
    }
}

#[test]
fn decoding_the_same_buffer_twice_yields_identical_records() {
    let buffer = b"POST /a HTTP/1.1\r\nContent-Length: 3\r\n\r\nxyz";
    let first = decode_http(buffer, HttpPacketType::Request, false);
    let second = decode_http(buffer, HttpPacketType::Request, false);
    assert_eq!(format!("{:?}", first), format!("{:?}", second));
    assert!(matches!(first, HttpDecode::CompleteRequest(_)));
}
