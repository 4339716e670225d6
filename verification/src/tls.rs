//! TLS record-layer decoding (stateful). A TLS byte stream is a sequence
//! of records, each with a 5-byte header: content type, version, length.
//! The decoder consumes as many complete records as the buffer holds,
//! reporting the batch once at least one full record is available; the
//! encrypted payloads themselves are not interpreted.

use vstd::prelude::*;
use crate::bytes::spec_u16_be;
use crate::outcome::MalformedReason;

verus! {

/// The record types of the TLS record layer.
#[derive(Debug, Clone, Copy, PartialEq, Eq, Structural)]
pub enum TlsContentType {
    ChangeCipherSpec,
    Alert,
    Handshake,
    ApplicationData,
}

/// What one decoded TLS record reports: its content type, protocol
/// version, declared payload length, and, for handshake records with a
/// non-empty payload, the handshake message type byte.
#[derive(Debug, Clone, Copy, PartialEq, Eq, Structural)]
pub struct TlsRecordInfo {
    pub content_type: TlsContentType,
    pub version: u16,
    pub length: u16,
    pub handshake_type: Option<u8>,
}

/// The outcome of a decode attempt over a flow's buffer.
#[derive(Debug, Clone)]
pub enum TlsDecode {
    /// At least one full record was present; all full records, in order.
    Complete(Vec<TlsRecordInfo>),
    /// Fewer than 5 bytes, or fewer than the first declared record length.
    Incomplete,
    /// The stream violates record framing.
    Malformed(MalformedReason),
}

/// The content type a header byte names, if any.
pub open spec fn spec_tls_content_type(b: u8) -> Option<TlsContentType> {
    if b == 20 {
        Some(TlsContentType::ChangeCipherSpec)
    } else if b == 21 {
        Some(TlsContentType::Alert)
    } else if b == 22 {
        Some(TlsContentType::Handshake)
    } else if b == 23 {
        Some(TlsContentType::ApplicationData)
    } else {
        None
    }
}

/// The full records present from position `i` on: empty once fewer bytes
/// than a header or than the declared length remain, an error on an
/// unknown content type.
pub open spec fn spec_tls_records_from(b: Seq<u8>, i: int) -> Result<
    Seq<TlsRecordInfo>,
    MalformedReason,
>
    decreases b.len() - i,
{
    if i < 0 || i + 5 > b.len() {
        Ok(Seq::empty())
    } else if spec_tls_content_type(b[i]) is None {
        Err(MalformedReason::TlsInvalidContentType)
    } else {
        let ct = spec_tls_content_type(b[i]).unwrap();
        let rlen = spec_u16_be(b[i + 3], b[i + 4]) as int;
        if i + 5 + rlen > b.len() {
            Ok(Seq::empty())
        } else {
            let rec = TlsRecordInfo {
                content_type: ct,
                version: spec_u16_be(b[i + 1], b[i + 2]),
                length: rlen as u16,
                handshake_type: if ct == TlsContentType::Handshake && rlen >= 1 {
                    Some(b[i + 5])
                } else {
                    None
                },
            };
            match spec_tls_records_from(b, i + 5 + rlen) {
                Ok(rest) => Ok(seq![rec] + rest),
                Err(e) => Err(e),
            }
        }
    }
}

/// What a decode attempt over a buffer yields: the full records when at
/// least one is present, `Incomplete` when none is, the framing error
/// otherwise.
pub open spec fn spec_decode_tls(b: Seq<u8>) -> Result<Seq<TlsRecordInfo>, Option<MalformedReason>> {
    match spec_tls_records_from(b, 0) {
        Ok(records) => if records.len() == 0 {
            Err(None)
        } else {
            Ok(records)
        },
        Err(e) => Err(Some(e)),
    }
}

/// The executable outcome carries exactly what the specification-level
/// decode gives: `Err(None)` stands for `Incomplete`.
pub open spec fn tls_decode_models(
    r: TlsDecode,
    s: Result<Seq<TlsRecordInfo>, Option<MalformedReason>>,
) -> bool {
    match r {
        TlsDecode::Complete(v) => s matches Ok(records) && v@ == records,
        TlsDecode::Incomplete => s == Err::<Seq<TlsRecordInfo>, Option<MalformedReason>>(None),
        TlsDecode::Malformed(e) => s == Err::<Seq<TlsRecordInfo>, Option<MalformedReason>>(
            Some(e),
        ),
    }
}

/// Decode as many complete TLS records as the buffer holds.
pub fn decode_tls(buffer: &[u8]) -> (r: TlsDecode)
    ensures
        tls_decode_models(r, spec_decode_tls(buffer@)),
{
    let n = buffer.len();
    let mut records: Vec<TlsRecordInfo> = Vec::new();
    let mut i: usize = 0;
    loop
        invariant
            i <= n,
            n == buffer@.len(),
            spec_tls_records_from(buffer@, 0) == (match spec_tls_records_from(buffer@, i as int) {
                Ok(rest) => Ok::<Seq<TlsRecordInfo>, MalformedReason>(records@ + rest),
                Err(e) => Err::<Seq<TlsRecordInfo>, MalformedReason>(e),
            }),
        decreases n - i,
    {
        if n - i < 5 {
            proof {
                assert(records@ + Seq::<TlsRecordInfo>::empty() =~= records@);
            }
            if records.len() == 0 {
                return TlsDecode::Incomplete;
            }
            return TlsDecode::Complete(records);
        }
        let ct_byte = *vstd::slice::slice_index_get(buffer, i);
        let ct = if ct_byte == 20 {
            TlsContentType::ChangeCipherSpec
        } else if ct_byte == 21 {
            TlsContentType::Alert
        } else if ct_byte == 22 {
            TlsContentType::Handshake
        } else if ct_byte == 23 {
            TlsContentType::ApplicationData
        } else {
            return TlsDecode::Malformed(MalformedReason::TlsInvalidContentType);
        };
        let ver_hi = *vstd::slice::slice_index_get(buffer, i + 1);
        let ver_lo = *vstd::slice::slice_index_get(buffer, i + 2);
        let len_hi = *vstd::slice::slice_index_get(buffer, i + 3);
        let len_lo = *vstd::slice::slice_index_get(buffer, i + 4);
        let rlen: u16 = (len_hi as u16) * 256 + (len_lo as u16);
        if (rlen as usize) > n - (i + 5) {
            proof {
                assert(records@ + Seq::<TlsRecordInfo>::empty() =~= records@);
            }
            if records.len() == 0 {
                return TlsDecode::Incomplete;
            }
            return TlsDecode::Complete(records);
        }
        let handshake_type: Option<u8> = if ct == TlsContentType::Handshake && rlen >= 1 {
            Some(*vstd::slice::slice_index_get(buffer, i + 5))
        } else {
            None
        };
        let rec = TlsRecordInfo {
            content_type: ct,
            version: (ver_hi as u16) * 256 + (ver_lo as u16),
            length: rlen,
            handshake_type,
        };
        proof {
            let rest0 = spec_tls_records_from(buffer@, i as int);
            let rest1 = spec_tls_records_from(buffer@, i + 5 + rlen as int);
            if rest1 is Ok {
                assert(records@ + (seq![rec] + rest1.unwrap()) =~= records@.push(rec)
                    + rest1.unwrap());
            }
        }
        records.push(rec);
        i = i + 5 + (rlen as usize);
    }
}


/// The batch of TLS records decoded from one flow's buffer.
#[derive(Debug, Clone)]
pub struct SerializableTlsPacket {
    pub records: Vec<TlsRecordInfo>,
}

impl View for SerializableTlsPacket {
    type V = Seq<TlsRecordInfo>;

    open spec fn view(&self) -> Seq<TlsRecordInfo> {
        self.records@
    }
}


/// Law: decoding is a function of the buffer alone: two decode attempts
/// over the same buffer, with no intervening append, yield identical
/// outcomes and identical record batches.
pub proof fn lemma_tls_decode_idempotent(r1: TlsDecode, r2: TlsDecode, b: Seq<u8>)
    requires
        tls_decode_models(r1, spec_decode_tls(b)),
        tls_decode_models(r2, spec_decode_tls(b)),
    ensures
        match (r1, r2) {
            (TlsDecode::Complete(v1), TlsDecode::Complete(v2)) => v1@ == v2@,
            (TlsDecode::Incomplete, TlsDecode::Incomplete) => true,
            (TlsDecode::Malformed(e1), TlsDecode::Malformed(e2)) => e1 == e2,
            _ => false,
        },
{
}

} // verus!
