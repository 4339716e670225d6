//! The application dispatcher: classify the flow by its ports, then either
//! decode the datagram directly (DNS, Modbus) or append it to the
//! protocol's reassembly store and decode the buffered stream (HTTP, TLS),
//! reacting to the outcome. The store mutation here is the engine's only
//! persistent side effect.

use vstd::prelude::*;
use crate::classify::{classify, http_packet_type, spec_classify, spec_http_packet_type,
    HttpPacketType, Protocol};
use crate::dns::{decode_dns, spec_decode_dns};
use crate::flow::{FlowKey, IpAddress};
use crate::http::{decode_http, spec_decode_http, HttpDecode, HttpMessageModel};
use crate::modbus::{spec_parse_modbus_rtu, ModbusPacket, Parse};
use crate::outcome::MalformedReason;
use crate::record::{spec_attach, ParsedPacket, SerializablePacket, SerializablePacketModel};
use crate::store::{buffer_of, ReassemblyStore};
use crate::tls::{decode_tls, spec_decode_tls, TlsDecode, SerializableTlsPacket, TlsRecordInfo};

verus! {

/// How many bytes one flow's reassembly buffer may hold. A buffer that
/// outgrows this without yielding a complete message is judged malformed
/// and discarded, to bound memory.
pub const REASSEMBLY_CEILING: usize = 1048576;

/// The record a Modbus payload yields: the decoded frame, or the error
/// folded into the malformed taxonomy. The generic RTU-style routine is
/// applied whichever transport carried the payload.
pub open spec fn spec_modbus_application(p: Seq<u8>) -> SerializablePacketModel {
    match spec_parse_modbus_rtu(p) {
        Ok(m) => SerializablePacketModel::ModbusPacket(m),
        Err(e) => SerializablePacketModel::MalformedPacket(MalformedReason::Modbus(e)),
    }
}

/// The record a DNS payload yields: the decoded message, or the reason it
/// is malformed.
pub open spec fn spec_dns_application(p: Seq<u8>) -> SerializablePacketModel {
    match spec_decode_dns(p) {
        Ok(m) => SerializablePacketModel::DnsPacket(m),
        Err(e) => SerializablePacketModel::MalformedPacket(e),
    }
}

/// The record a complete HTTP message yields.
pub open spec fn spec_http_application(m: HttpMessageModel) -> SerializablePacketModel {
    match m {
        HttpMessageModel::Request(r) => SerializablePacketModel::HttpRequestPacket(r),
        HttpMessageModel::Response(r) => SerializablePacketModel::HttpResponsePacket(r),
    }
}

/// One dispatcher step for an HTTP flow: the new store map and what is
/// attached. The payload joins the flow's buffer; a complete or malformed
/// decode clears the entry; an incomplete decode keeps buffering unless
/// the buffer outgrew the ceiling (malformed, cleared) or the stream is
/// closing, in which case a terminal decode is attempted and the entry is
/// cleared either way.
pub open spec fn spec_http_step(
    m: Map<FlowKey, Seq<u8>>,
    key: FlowKey,
    kind: HttpPacketType,
    is_fin: bool,
    payload: Seq<u8>,
) -> (Map<FlowKey, Seq<u8>>, Option<SerializablePacketModel>) {
    let combined = buffer_of(m, key) + payload;
    let m1 = m.insert(key, combined);
    match spec_decode_http(combined, kind, false) {
        Ok(msg) => (m1.remove(key), Some(spec_http_application(msg))),
        Err(Some(e)) => (m1.remove(key), Some(SerializablePacketModel::MalformedPacket(e))),
        Err(None) => if combined.len() > REASSEMBLY_CEILING {
            (
                m1.remove(key),
                Some(SerializablePacketModel::MalformedPacket(MalformedReason::Oversized)),
            )
        } else if is_fin {
            if combined.len() == 0 {
                (m1.remove(key), None)
            } else {
                match spec_decode_http(combined, kind, true) {
                    Ok(msg) => (m1.remove(key), Some(spec_http_application(msg))),
                    Err(_) => (
                        m1.remove(key),
                        Some(SerializablePacketModel::MalformedPacket(MalformedReason::Truncated)),
                    ),
                }
            }
        } else {
            (m1, None)
        },
    }
}

/// One dispatcher step for a TLS flow, with the same lifecycle as the
/// HTTP step; a closing stream with leftover bytes is truncated, since
/// TLS records have no end-of-stream framing.
pub open spec fn spec_tls_step(
    m: Map<FlowKey, Seq<u8>>,
    key: FlowKey,
    is_fin: bool,
    payload: Seq<u8>,
) -> (Map<FlowKey, Seq<u8>>, Option<SerializablePacketModel>) {
    let combined = buffer_of(m, key) + payload;
    let m1 = m.insert(key, combined);
    match spec_decode_tls(combined) {
        Ok(records) => (m1.remove(key), Some(SerializablePacketModel::TlsPacket(records))),
        Err(Some(e)) => (m1.remove(key), Some(SerializablePacketModel::MalformedPacket(e))),
        Err(None) => if combined.len() > REASSEMBLY_CEILING {
            (
                m1.remove(key),
                Some(SerializablePacketModel::MalformedPacket(MalformedReason::Oversized)),
            )
        } else if is_fin {
            if combined.len() == 0 {
                (m1.remove(key), None)
            } else {
                (
                    m1.remove(key),
                    Some(SerializablePacketModel::MalformedPacket(MalformedReason::Truncated)),
                )
            }
        } else {
            (m1, None)
        },
    }
}

/// Decode a Modbus payload and attach the outcome to the frame's
/// application-layer slot.
pub fn handle_modbus_packet(packet: &[u8], parsed_packet: &mut ParsedPacket)
    ensures
        final(parsed_packet)@ == spec_attach(
            old(parsed_packet)@,
            Some(spec_modbus_application(packet@)),
        ),
{
    match ModbusPacket::parse(packet) {
        Ok(frame) => {
            parsed_packet.set_application_layer_packet(
                Some(SerializablePacket::ModbusPacket(frame)),
            );
        },
        Err(e) => {
            parsed_packet.set_application_layer_packet(
                Some(SerializablePacket::MalformedPacket(MalformedReason::Modbus(e))),
            );
        },
    }
}

/// Decode a DNS datagram and attach the outcome to the frame's
/// application-layer slot.
pub fn handle_dns_packet(packet: &[u8], parsed_packet: &mut ParsedPacket)
    ensures
        final(parsed_packet)@ == spec_attach(
            old(parsed_packet)@,
            Some(spec_dns_application(packet@)),
        ),
{
    match decode_dns(packet) {
        Ok(msg) => {
            parsed_packet.set_application_layer_packet(Some(SerializablePacket::DnsPacket(msg)));
        },
        Err(e) => {
            parsed_packet.set_application_layer_packet(
                Some(SerializablePacket::MalformedPacket(e)),
            );
        },
    }
}

/// Append the segment to the HTTP store, attempt a decode over the flow's
/// buffer, and react: attach and clear on a complete or malformed message,
/// keep buffering on an incomplete one, subject to the size ceiling and to
/// the terminal decode when the stream closes.
pub fn handle_http_packet(
    key: FlowKey,
    http_type: HttpPacketType,
    is_fin: bool,
    packet: &[u8],
    store: &mut ReassemblyStore,
    parsed_packet: &mut ParsedPacket,
)
    requires
        old(store).wf(),
    ensures
        final(store).wf(),
        final(store)@ == spec_http_step(old(store)@, key, http_type, is_fin, packet@).0,
        final(parsed_packet)@ == spec_attach(
            old(parsed_packet)@,
            spec_http_step(old(store)@, key, http_type, is_fin, packet@).1,
        ),
{
    store.append(key, packet);
    let (outcome, buffered_len) = match store.snapshot(key) {
        Some(buf) => (decode_http(buf.as_slice(), http_type, false), buf.len()),
        None => (HttpDecode::Incomplete, 0),
    };
    match outcome {
        HttpDecode::CompleteRequest(p) => {
            parsed_packet.set_application_layer_packet(
                Some(SerializablePacket::HttpRequestPacket(p)),
            );
            store.clear(key);
        },
        HttpDecode::CompleteResponse(p) => {
            parsed_packet.set_application_layer_packet(
                Some(SerializablePacket::HttpResponsePacket(p)),
            );
            store.clear(key);
        },
        HttpDecode::Malformed(e) => {
            parsed_packet.set_application_layer_packet(
                Some(SerializablePacket::MalformedPacket(e)),
            );
            store.clear(key);
        },
        HttpDecode::Incomplete => {
            if buffered_len > REASSEMBLY_CEILING {
                parsed_packet.set_application_layer_packet(
                    Some(SerializablePacket::MalformedPacket(MalformedReason::Oversized)),
                );
                store.clear(key);
            } else if is_fin {
                if buffered_len > 0 {
                    let terminal = match store.snapshot(key) {
                        Some(buf) => decode_http(buf.as_slice(), http_type, true),
                        None => HttpDecode::Incomplete,
                    };
                    match terminal {
                        HttpDecode::CompleteRequest(p) => {
                            parsed_packet.set_application_layer_packet(
                                Some(SerializablePacket::HttpRequestPacket(p)),
                            );
                        },
                        HttpDecode::CompleteResponse(p) => {
                            parsed_packet.set_application_layer_packet(
                                Some(SerializablePacket::HttpResponsePacket(p)),
                            );
                        },
                        _ => {
                            parsed_packet.set_application_layer_packet(
                                Some(
                                    SerializablePacket::MalformedPacket(MalformedReason::Truncated),
                                ),
                            );
                        },
                    }
                }
                store.clear(key);
            }
        },
    }
}

/// Append the segment to the TLS store, attempt a decode over the flow's
/// buffer, and react, with the same lifecycle as the HTTP handler.
pub fn handle_tls_packet(
    key: FlowKey,
    is_fin: bool,
    packet: &[u8],
    store: &mut ReassemblyStore,
    parsed_packet: &mut ParsedPacket,
)
    requires
        old(store).wf(),
    ensures
        final(store).wf(),
        final(store)@ == spec_tls_step(old(store)@, key, is_fin, packet@).0,
        final(parsed_packet)@ == spec_attach(
            old(parsed_packet)@,
            spec_tls_step(old(store)@, key, is_fin, packet@).1,
        ),
{
    store.append(key, packet);
    let (outcome, buffered_len) = match store.snapshot(key) {
        Some(buf) => (decode_tls(buf.as_slice()), buf.len()),
        None => (TlsDecode::Incomplete, 0),
    };
    match outcome {
        TlsDecode::Complete(records) => {
            parsed_packet.set_application_layer_packet(
                Some(SerializablePacket::TlsPacket(SerializableTlsPacket { records })),
            );
            store.clear(key);
        },
        TlsDecode::Malformed(e) => {
            parsed_packet.set_application_layer_packet(
                Some(SerializablePacket::MalformedPacket(e)),
            );
            store.clear(key);
        },
        TlsDecode::Incomplete => {
            if buffered_len > REASSEMBLY_CEILING {
                parsed_packet.set_application_layer_packet(
                    Some(SerializablePacket::MalformedPacket(MalformedReason::Oversized)),
                );
                store.clear(key);
            } else if is_fin {
                if buffered_len > 0 {
                    parsed_packet.set_application_layer_packet(
                        Some(SerializablePacket::MalformedPacket(MalformedReason::Truncated)),
                    );
                }
                store.clear(key);
            }
        },
    }
}

/// Build an application-layer record from a transport-layer payload and
/// attach it to the frame: classify by the port pair, then run the
/// matching decoder, statelessly (DNS, Modbus) or through the flow's
/// reassembly buffer (HTTP, TLS). An unclassified flow attaches nothing.
pub fn handle_application_protocol(
    source_ip: IpAddress,
    source_port: u16,
    dest_ip: IpAddress,
    dest_port: u16,
    is_fin: bool,
    packet: &[u8],
    http_store: &mut ReassemblyStore,
    tls_store: &mut ReassemblyStore,
    parsed_packet: &mut ParsedPacket,
)
    requires
        old(http_store).wf(),
        old(tls_store).wf(),
    ensures
        final(http_store).wf(),
        final(tls_store).wf(),
        ({
            let key = FlowKey { source_ip, source_port, destination_ip: dest_ip, destination_port: dest_port };
            match spec_classify(source_port, dest_port) {
                Some(Protocol::Http) => {
                    let step = spec_http_step(
                        old(http_store)@,
                        key,
                        spec_http_packet_type(source_port, dest_port),
                        is_fin,
                        packet@,
                    );
                    final(http_store)@ == step.0 && final(tls_store)@ == old(tls_store)@
                        && final(parsed_packet)@ == spec_attach(old(parsed_packet)@, step.1)
                },
                Some(Protocol::Tls) => {
                    let step = spec_tls_step(old(tls_store)@, key, is_fin, packet@);
                    final(tls_store)@ == step.0 && final(http_store)@ == old(http_store)@
                        && final(parsed_packet)@ == spec_attach(old(parsed_packet)@, step.1)
                },
                Some(Protocol::Dns) => final(http_store)@ == old(http_store)@ && final(tls_store)@
                    == old(tls_store)@ && final(parsed_packet)@ == spec_attach(
                    old(parsed_packet)@,
                    Some(spec_dns_application(packet@)),
                ),
                Some(Protocol::Modbus) => final(http_store)@ == old(http_store)@
                    && final(tls_store)@ == old(tls_store)@ && final(parsed_packet)@ == spec_attach(
                    old(parsed_packet)@,
                    Some(spec_modbus_application(packet@)),
                ),
                None => final(http_store)@ == old(http_store)@
                    && final(tls_store)@ == old(tls_store)@
                    && final(parsed_packet)@ == old(parsed_packet)@,
            }
        }),
{
    let key = FlowKey::new(source_ip, source_port, dest_ip, dest_port);
    match classify(source_port, dest_port) {
        Some(Protocol::Http) => {
            let http_type = http_packet_type(source_port, dest_port);
            handle_http_packet(key, http_type, is_fin, packet, http_store, parsed_packet);
        },
        Some(Protocol::Tls) => {
            handle_tls_packet(key, is_fin, packet, tls_store, parsed_packet);
        },
        Some(Protocol::Dns) => {
            handle_dns_packet(packet, parsed_packet);
        },
        Some(Protocol::Modbus) => {
            handle_modbus_packet(packet, parsed_packet);
        },
        None => {},
    }
}


/// Law: the ceiling bounds memory. A store whose buffers all fit the
/// ceiling keeps that bound across any HTTP step: a buffer that outgrows
/// the ceiling without completing a message is cleared, with the
/// oversized record attached, rather than retained.
pub proof fn lemma_http_step_bounds_memory(
    m: Map<FlowKey, Seq<u8>>,
    key: FlowKey,
    kind: HttpPacketType,
    is_fin: bool,
    payload: Seq<u8>,
)
    requires
        forall|k: FlowKey| #[trigger] m.contains_key(k) ==> m[k].len() <= REASSEMBLY_CEILING,
    ensures
        forall|k: FlowKey| #[trigger]
            spec_http_step(m, key, kind, is_fin, payload).0.contains_key(k) ==> spec_http_step(
                m,
                key,
                kind,
                is_fin,
                payload,
            ).0[k].len() <= REASSEMBLY_CEILING,
        (buffer_of(m, key) + payload).len() > REASSEMBLY_CEILING && spec_decode_http(
            buffer_of(m, key) + payload,
            kind,
            false,
        ) == Err::<HttpMessageModel, Option<MalformedReason>>(None) ==> spec_http_step(
            m,
            key,
            kind,
            is_fin,
            payload,
        ).1 == Some(SerializablePacketModel::MalformedPacket(MalformedReason::Oversized)),
{
}

/// Law: the ceiling bounds memory across any TLS step, in the same way.
pub proof fn lemma_tls_step_bounds_memory(
    m: Map<FlowKey, Seq<u8>>,
    key: FlowKey,
    is_fin: bool,
    payload: Seq<u8>,
)
    requires
        forall|k: FlowKey| #[trigger] m.contains_key(k) ==> m[k].len() <= REASSEMBLY_CEILING,
    ensures
        forall|k: FlowKey| #[trigger]
            spec_tls_step(m, key, is_fin, payload).0.contains_key(k) ==> spec_tls_step(
                m,
                key,
                is_fin,
                payload,
            ).0[k].len() <= REASSEMBLY_CEILING,
        (buffer_of(m, key) + payload).len() > REASSEMBLY_CEILING && spec_decode_tls(
            buffer_of(m, key) + payload,
        ) == Err::<Seq<TlsRecordInfo>, Option<MalformedReason>>(None) ==> spec_tls_step(
            m,
            key,
            is_fin,
            payload,
        ).1 == Some(SerializablePacketModel::MalformedPacket(MalformedReason::Oversized)),
{
}

} // verus!
