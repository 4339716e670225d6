//! The unified per-frame record: an optional structured representation
//! for each TCP/IP layer. The engine writes at most one application-layer
//! record per captured frame; the other slots are filled by the
//! surrounding layer decoders.

use vstd::prelude::*;
use crate::dns::{DnsPacketModel, SerializableDnsPacket};
use crate::http::{
    HttpRequestModel, HttpResponseModel, SerializableHttpRequestPacket,
    SerializableHttpResponsePacket,
};
use crate::modbus::{ModbusPacket, ModbusPacketModel};
use crate::outcome::MalformedReason;
use crate::tls::{SerializableTlsPacket, TlsRecordInfo};

verus! {

/// The closed set of records a frame's layer slot can hold.
#[derive(Debug, Clone)]
pub enum SerializablePacket {
    HttpRequestPacket(SerializableHttpRequestPacket),
    HttpResponsePacket(SerializableHttpResponsePacket),
    TlsPacket(SerializableTlsPacket),
    DnsPacket(SerializableDnsPacket),
    ModbusPacket(ModbusPacket),
    MalformedPacket(MalformedReason),
    UnknownPacket,
}

/// Mathematical model of a layer record.
pub enum SerializablePacketModel {
    HttpRequestPacket(HttpRequestModel),
    HttpResponsePacket(HttpResponseModel),
    TlsPacket(Seq<TlsRecordInfo>),
    DnsPacket(DnsPacketModel),
    ModbusPacket(ModbusPacketModel),
    MalformedPacket(MalformedReason),
    UnknownPacket,
}

impl View for SerializablePacket {
    type V = SerializablePacketModel;

    open spec fn view(&self) -> SerializablePacketModel {
        match self {
            SerializablePacket::HttpRequestPacket(p) => SerializablePacketModel::HttpRequestPacket(
                p@,
            ),
            SerializablePacket::HttpResponsePacket(p) => SerializablePacketModel::HttpResponsePacket(
                p@,
            ),
            SerializablePacket::TlsPacket(p) => SerializablePacketModel::TlsPacket(p@),
            SerializablePacket::DnsPacket(p) => SerializablePacketModel::DnsPacket(p@),
            SerializablePacket::ModbusPacket(p) => SerializablePacketModel::ModbusPacket(p@),
            SerializablePacket::MalformedPacket(e) => SerializablePacketModel::MalformedPacket(*e),
            SerializablePacket::UnknownPacket => SerializablePacketModel::UnknownPacket,
        }
    }
}

/// The model of an optional layer record.
pub open spec fn opt_packet_model(o: Option<SerializablePacket>) -> Option<
    SerializablePacketModel,
> {
    match o {
        Some(p) => Some(p@),
        None => None,
    }
}

/// Mathematical model of a parsed frame.
pub struct ParsedPacketModel {
    pub id: usize,
    pub link_layer_packet: Option<SerializablePacketModel>,
    pub network_layer_packet: Option<SerializablePacketModel>,
    pub transport_layer_packet: Option<SerializablePacketModel>,
    pub application_layer_packet: Option<SerializablePacketModel>,
}

/// The representations of one captured frame, one optional record per
/// TCP/IP layer.
#[derive(Debug, Clone)]
pub struct ParsedPacket {
    id: usize,
    link_layer_packet: Option<SerializablePacket>,
    network_layer_packet: Option<SerializablePacket>,
    transport_layer_packet: Option<SerializablePacket>,
    application_layer_packet: Option<SerializablePacket>,
}

impl View for ParsedPacket {
    type V = ParsedPacketModel;

    closed spec fn view(&self) -> ParsedPacketModel {
        ParsedPacketModel {
            id: self.id,
            link_layer_packet: opt_packet_model(self.link_layer_packet),
            network_layer_packet: opt_packet_model(self.network_layer_packet),
            transport_layer_packet: opt_packet_model(self.transport_layer_packet),
            application_layer_packet: opt_packet_model(self.application_layer_packet),
        }
    }
}

/// The frame model after a record (or nothing) is attached to its
/// application-layer slot.
pub open spec fn spec_attach(pp: ParsedPacketModel, o: Option<SerializablePacketModel>) -> ParsedPacketModel {
    match o {
        Some(pm) => ParsedPacketModel {
            id: pp.id,
            link_layer_packet: pp.link_layer_packet,
            network_layer_packet: pp.network_layer_packet,
            transport_layer_packet: pp.transport_layer_packet,
            application_layer_packet: Some(pm),
        },
        None => pp,
    }
}

impl ParsedPacket {
    /// A fresh record for one captured frame: every layer slot empty.
    pub fn new(id: usize) -> (r: ParsedPacket)
        ensures
            r@ == (ParsedPacketModel {
                id,
                link_layer_packet: None::<SerializablePacketModel>,
                network_layer_packet: None::<SerializablePacketModel>,
                transport_layer_packet: None::<SerializablePacketModel>,
                application_layer_packet: None::<SerializablePacketModel>,
            }),
    {
        ParsedPacket {
            id,
            link_layer_packet: None,
            network_layer_packet: None,
            transport_layer_packet: None,
            application_layer_packet: None,
        }
    }

    /// The frame's unique identifier.
    pub fn get_id(&self) -> (r: usize)
        ensures
            r == self@.id,
    {
        self.id
    }

    /// The link-layer record, if one was attached.
    pub fn get_link_layer_packet(&self) -> (r: Option<&SerializablePacket>)
        ensures
            match r {
                Some(p) => self@.link_layer_packet == Some(p@),
                None => self@.link_layer_packet is None,
            },
    {
        self.link_layer_packet.as_ref()
    }

    /// The network-layer record, if one was attached.
    pub fn get_network_layer_packet(&self) -> (r: Option<&SerializablePacket>)
        ensures
            match r {
                Some(p) => self@.network_layer_packet == Some(p@),
                None => self@.network_layer_packet is None,
            },
    {
        self.network_layer_packet.as_ref()
    }

    /// The transport-layer record, if one was attached.
    pub fn get_transport_layer_packet(&self) -> (r: Option<&SerializablePacket>)
        ensures
            match r {
                Some(p) => self@.transport_layer_packet == Some(p@),
                None => self@.transport_layer_packet is None,
            },
    {
        self.transport_layer_packet.as_ref()
    }

    /// The application-layer record, if one was attached.
    pub fn get_application_layer_packet(&self) -> (r: Option<&SerializablePacket>)
        ensures
            match r {
                Some(p) => self@.application_layer_packet == Some(p@),
                None => self@.application_layer_packet is None,
            },
    {
        self.application_layer_packet.as_ref()
    }

    /// Replace the link-layer record.
    pub fn set_link_layer_packet(&mut self, p: Option<SerializablePacket>)
        ensures
            final(self)@ == (ParsedPacketModel {
                link_layer_packet: opt_packet_model(p),
                ..old(self)@
            }),
    {
        self.link_layer_packet = p;
    }

    /// Replace the network-layer record.
    pub fn set_network_layer_packet(&mut self, p: Option<SerializablePacket>)
        ensures
            final(self)@ == (ParsedPacketModel {
                network_layer_packet: opt_packet_model(p),
                ..old(self)@
            }),
    {
        self.network_layer_packet = p;
    }

    /// Replace the transport-layer record.
    pub fn set_transport_layer_packet(&mut self, p: Option<SerializablePacket>)
        ensures
            final(self)@ == (ParsedPacketModel {
                transport_layer_packet: opt_packet_model(p),
                ..old(self)@
            }),
    {
        self.transport_layer_packet = p;
    }

    /// Replace the application-layer record.
    pub fn set_application_layer_packet(&mut self, p: Option<SerializablePacket>)
        ensures
            final(self)@ == (ParsedPacketModel {
                application_layer_packet: opt_packet_model(p),
                ..old(self)@
            }),
    {
        self.application_layer_packet = p;
    }
}

} // verus!
