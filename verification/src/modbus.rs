//! Modbus frame decoding (stateless).
//!
//! Three framing variants are supported: RTU (address, function code, data,
//! trailing little-endian CRC), TCP (7-byte MBAP header, function code,
//! data, no CRC), and RTU-over-TCP (MBAP-style 6-byte prefix followed by an
//! RTU frame). Function codes outside `1..=127` are rejected; CRC bytes are
//! extracted verbatim but never validated.

use vstd::prelude::*;
use crate::bytes::spec_u16_le;

verus! {

/// Why a payload failed to decode as a Modbus frame.
#[derive(Debug, Clone, Copy, PartialEq, Eq, Structural)]
pub enum ModbusError {
    InvalidLength,
    InvalidFunctionCode,
    InvalidCRC,
}

/// A decoded Modbus frame. `crc` is present only for the RTU framing
/// variants, which carry a trailing CRC field.
#[derive(Debug, Clone)]
pub struct ModbusPacket {
    pub address: u8,
    pub function_code: u8,
    pub data: Vec<u8>,
    pub crc: Option<u16>,
}

/// Mathematical model of a decoded Modbus frame.
pub struct ModbusPacketModel {
    pub address: u8,
    pub function_code: u8,
    pub data: Seq<u8>,
    pub crc: Option<u16>,
}

impl View for ModbusPacket {
    type V = ModbusPacketModel;

    open spec fn view(&self) -> ModbusPacketModel {
        ModbusPacketModel {
            address: self.address,
            function_code: self.function_code,
            data: self.data@,
            crc: self.crc,
        }
    }
}

/// A function code is valid exactly when it lies in `1..=127`.
pub open spec fn spec_valid_function_code(code: u8) -> bool {
    1 <= code <= 127
}

/// What RTU decoding returns on a given payload: at least 4 bytes
/// (address, function code, CRC), a valid function code, the middle bytes
/// as data, and the trailing two bytes as a little-endian CRC.
pub open spec fn spec_parse_modbus_rtu(p: Seq<u8>) -> Result<ModbusPacketModel, ModbusError> {
    if p.len() < 4 {
        Err(ModbusError::InvalidLength)
    } else if !spec_valid_function_code(p[1]) {
        Err(ModbusError::InvalidFunctionCode)
    } else {
        Ok(ModbusPacketModel {
            address: p[0],
            function_code: p[1],
            data: p.subrange(2, p.len() - 2),
            crc: Some(spec_u16_le(p[p.len() - 2], p[p.len() - 1])),
        })
    }
}

/// What TCP decoding returns on a given payload: a 7-byte MBAP header
/// (transaction id, protocol id, length, unit id), then the function code
/// and the rest as data; no CRC.
pub open spec fn spec_parse_modbus_tcp(p: Seq<u8>) -> Result<ModbusPacketModel, ModbusError> {
    if p.len() < 8 {
        Err(ModbusError::InvalidLength)
    } else if !spec_valid_function_code(p[7]) {
        Err(ModbusError::InvalidFunctionCode)
    } else {
        Ok(ModbusPacketModel {
            address: p[6],
            function_code: p[7],
            data: p.subrange(8, p.len() as int),
            crc: None,
        })
    }
}

/// What RTU-over-TCP decoding returns: the 6-byte MBAP-style prefix is
/// skipped and the rest is decoded as an RTU frame.
pub open spec fn spec_parse_modbus_rtu_over_tcp(p: Seq<u8>) -> Result<
    ModbusPacketModel,
    ModbusError,
> {
    if p.len() < 8 {
        Err(ModbusError::InvalidLength)
    } else {
        spec_parse_modbus_rtu(p.subrange(6, p.len() as int))
    }
}

/// The executable result carries exactly the frame (or error) that the
/// specification-level decode gives.
pub open spec fn modbus_result_models(
    r: Result<ModbusPacket, ModbusError>,
    s: Result<ModbusPacketModel, ModbusError>,
) -> bool {
    match r {
        Ok(pkt) => s matches Ok(m) && pkt@ == m,
        Err(e) => s matches Err(e2) && e == e2,
    }
}

/// Decode a Modbus RTU frame: byte 0 is the unit address, byte 1 the
/// function code, the trailing two bytes a little-endian CRC, and the
/// middle bytes the data.
pub fn parse_modbus_rtu(payload: &[u8]) -> (r: Result<ModbusPacket, ModbusError>)
    ensures
        modbus_result_models(r, spec_parse_modbus_rtu(payload@)),
{
    if payload.len() < 4 {
        return Err(ModbusError::InvalidLength);
    }
    let address = *vstd::slice::slice_index_get(payload, 0);
    let function_code = *vstd::slice::slice_index_get(payload, 1);
    if function_code == 0 || function_code > 127 {
        return Err(ModbusError::InvalidFunctionCode);
    }
    let data_end = payload.len() - 2;
    let data = vstd::slice::slice_to_vec(vstd::slice::slice_subrange(payload, 2, data_end));
    let crc_lo = *vstd::slice::slice_index_get(payload, data_end);
    let crc_hi = *vstd::slice::slice_index_get(payload, data_end + 1);
    let crc: u16 = (crc_lo as u16) + (crc_hi as u16) * 256;
    Ok(ModbusPacket { address, function_code, data, crc: Some(crc) })
}

/// Decode a Modbus TCP frame: a 7-byte MBAP header, then the function code
/// and the rest of the payload as data; there is no CRC in this variant.
pub fn parse_modbus_tcp(payload: &[u8]) -> (r: Result<ModbusPacket, ModbusError>)
    ensures
        modbus_result_models(r, spec_parse_modbus_tcp(payload@)),
{
    if payload.len() < 8 {
        return Err(ModbusError::InvalidLength);
    }
    let unit_id = *vstd::slice::slice_index_get(payload, 6);
    let function_code = *vstd::slice::slice_index_get(payload, 7);
    if function_code == 0 || function_code > 127 {
        return Err(ModbusError::InvalidFunctionCode);
    }
    let data = vstd::slice::slice_to_vec(vstd::slice::slice_subrange(payload, 8, payload.len()));
    Ok(ModbusPacket { address: unit_id, function_code, data, crc: None })
}

/// Decode an RTU frame carried behind an MBAP-style prefix: the first six
/// bytes (transaction id, protocol id, length) are skipped and the rest is
/// decoded as RTU.
pub fn parse_modbus_rtu_over_tcp(payload: &[u8]) -> (r: Result<ModbusPacket, ModbusError>)
    ensures
        modbus_result_models(r, spec_parse_modbus_rtu_over_tcp(payload@)),
{
    if payload.len() < 8 {
        return Err(ModbusError::InvalidLength);
    }
    parse_modbus_rtu(vstd::slice::slice_subrange(payload, 6, payload.len()))
}

/// Decoding a payload into a Modbus frame.
pub trait Parse {
    /// Decode `payload` as an RTU-style frame.
    fn parse(payload: &[u8]) -> (r: Result<ModbusPacket, ModbusError>)
        ensures
            modbus_result_models(r, spec_parse_modbus_rtu(payload@)),
    ;
}

impl Parse for ModbusPacket {
    fn parse(payload: &[u8]) -> (r: Result<ModbusPacket, ModbusError>) {
        parse_modbus_rtu(payload)
    }
}

} // verus!
