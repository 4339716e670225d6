//! Port-based protocol classification: a pure map from a port pair to an
//! application protocol family, using IANA well-known ports. When both
//! endpoints use different well-known ports the match order is fixed:
//! HTTP, then TLS, then DNS, then Modbus.

use vstd::prelude::*;

verus! {

/// IANA well-known port for HTTP.
pub const HTTP_PORT: u16 = 80;

/// IANA well-known port for TLS.
pub const TLS_PORT: u16 = 443;

/// IANA well-known port for DNS.
pub const DNS_PORT: u16 = 53;

/// IANA well-known port for Modbus.
pub const MODBUS_PORT: u16 = 502;

/// The application protocol families this engine decodes.
#[derive(Debug, Clone, Copy, PartialEq, Eq, Structural)]
pub enum Protocol {
    Http,
    Tls,
    Dns,
    Modbus,
}

/// Whether an HTTP payload is parsed with the request-line or the
/// status-line grammar.
#[derive(Debug, Clone, Copy, PartialEq, Eq, Structural)]
pub enum HttpPacketType {
    Request,
    Response,
}

/// The protocol a port pair classifies to: the first of HTTP, TLS, DNS,
/// Modbus whose well-known port appears on either side, or none.
pub open spec fn spec_classify(source_port: u16, dest_port: u16) -> Option<Protocol> {
    if source_port == HTTP_PORT || dest_port == HTTP_PORT {
        Some(Protocol::Http)
    } else if source_port == TLS_PORT || dest_port == TLS_PORT {
        Some(Protocol::Tls)
    } else if source_port == DNS_PORT || dest_port == DNS_PORT {
        Some(Protocol::Dns)
    } else if source_port == MODBUS_PORT || dest_port == MODBUS_PORT {
        Some(Protocol::Modbus)
    } else {
        None
    }
}

/// HTTP traffic destined to the well-known port is a request; traffic
/// sourced from it is a response.
pub open spec fn spec_http_packet_type(source_port: u16, dest_port: u16) -> HttpPacketType {
    if dest_port == HTTP_PORT {
        HttpPacketType::Request
    } else {
        HttpPacketType::Response
    }
}

/// Map a port pair to a protocol family, or `None` when neither port is a
/// known service port. Deterministic and side-effect free.
pub fn classify(source_port: u16, dest_port: u16) -> (r: Option<Protocol>)
    ensures
        r == spec_classify(source_port, dest_port),
{
    if source_port == HTTP_PORT || dest_port == HTTP_PORT {
        Some(Protocol::Http)
    } else if source_port == TLS_PORT || dest_port == TLS_PORT {
        Some(Protocol::Tls)
    } else if source_port == DNS_PORT || dest_port == DNS_PORT {
        Some(Protocol::Dns)
    } else if source_port == MODBUS_PORT || dest_port == MODBUS_PORT {
        Some(Protocol::Modbus)
    } else {
        None
    }
}

/// Decide request vs. response for an HTTP-classified flow by which side
/// is the well-known port.
pub fn http_packet_type(source_port: u16, dest_port: u16) -> (r: HttpPacketType)
    ensures
        r == spec_http_packet_type(source_port, dest_port),
{
    if dest_port == HTTP_PORT {
        HttpPacketType::Request
    } else {
        HttpPacketType::Response
    }
}

} // verus!
