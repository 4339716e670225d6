//! The failure taxonomy shared by the decoders and the dispatcher.
//! `Malformed` outcomes are recorded values, never faults: a bad packet
//! must not stop processing of later packets.

use vstd::prelude::*;
use crate::modbus::ModbusError;

verus! {

/// Why a payload or a reassembled stream was judged malformed.
#[derive(Debug, Clone, Copy, PartialEq, Eq, Structural)]
pub enum MalformedReason {
    /// The stream ended while a message was still incomplete.
    Truncated,
    /// The reassembly buffer exceeded the size ceiling without yielding a
    /// complete message.
    Oversized,
    /// A Modbus frame error, folded into the common taxonomy.
    Modbus(ModbusError),
    /// A TLS record header carried an unknown content type.
    TlsInvalidContentType,
    /// A DNS payload shorter than the fixed 12-byte header.
    DnsTooShort,
    /// A DNS name whose labels or compression pointers are invalid.
    DnsBadName,
    /// A DNS entry that runs past the end of the payload.
    DnsTruncated,
    /// An HTTP start line that does not follow the request or status grammar.
    HttpBadStartLine,
    /// An HTTP header line without a colon or without a name.
    HttpBadHeader,
    /// An HTTP chunked body with an invalid chunk frame.
    HttpBadChunk,
    /// An HTTP `Content-Length` value that is not a plain number.
    HttpBadContentLength,
    /// A declared transfer encoding this engine cannot handle.
    HttpUnsupportedTransferEncoding,
    /// A declared content encoding this engine cannot handle.
    HttpUnsupportedContentEncoding,
    /// A declared content encoding whose decompression failed.
    HttpDecompressionFailed,
}

} // verus!
