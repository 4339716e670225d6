use sniffer_parser::modbus::{
    parse_modbus_rtu, parse_modbus_rtu_over_tcp, parse_modbus_tcp, ModbusError, ModbusPacket,
    Parse,
};

#[test]
fn rtu_decodes_address_function_data_and_crc() {
    let payload = [0x01u8, 0x03, 0xAA, 0xBB, 0xCC, 0xDD];
    let frame = parse_modbus_rtu(&payload).unwrap();
    assert_eq!(frame.address, 1);
    assert_eq!(frame.function_code, 3);
    assert_eq!(frame.data, vec![0xAA, 0xBB]);
    assert_eq!(frame.crc, Some(0xDDCC));
}

#[test]
fn rtu_rejects_short_payload() {
    let payload = [0x01u8, 0x03, 0xAA];
    assert_eq!(parse_modbus_rtu(&payload).unwrap_err(), ModbusError::InvalidLength);
}

#[test]
fn rtu_rejects_function_code_zero() {
    let payload = [0x01u8, 0x00, 0xAA, 0xBB, 0xCC, 0xDD];
    assert_eq!(parse_modbus_rtu(&payload).unwrap_err(), ModbusError::InvalidFunctionCode);
}

#[test]
fn rtu_rejects_function_code_above_127() {
    let payload = [0x01u8, 0x80, 0xAA, 0xBB, 0xCC, 0xDD];
    assert_eq!(parse_modbus_rtu(&payload).unwrap_err(), ModbusError::InvalidFunctionCode);
}

#[test]
fn tcp_decodes_mbap_and_function_code_only_payload() {
    // transaction id 1, protocol id 0, length 2, unit id 7, function code 4
    let payload = [0x00u8, 0x01, 0x00, 0x00, 0x00, 0x02, 0x07, 0x04];
    let frame = parse_modbus_tcp(&payload).unwrap();
    assert_eq!(frame.address, 7);
    assert_eq!(frame.function_code, 4);
    assert_eq!(frame.data, Vec::<u8>::new());
    assert_eq!(frame.crc, None);
}

#[test]
fn tcp_rejects_short_payload() {
    let payload = [0x00u8, 0x01, 0x00, 0x00, 0x00, 0x02, 0x07];
    assert_eq!(parse_modbus_tcp(&payload).unwrap_err(), ModbusError::InvalidLength);
}

#[test]
fn tcp_rejects_bad_function_code() {
    let payload = [0x00u8, 0x01, 0x00, 0x00, 0x00, 0x02, 0x07, 0x00];
    assert_eq!(parse_modbus_tcp(&payload).unwrap_err(), ModbusError::InvalidFunctionCode);
}

#[test]
fn rtu_over_tcp_skips_prefix_and_decodes_rtu() {
    let payload = [0x00u8, 0x01, 0x00, 0x00, 0x00, 0x06, 0x01, 0x03, 0xAA, 0xBB, 0xCC, 0xDD];
    let frame = parse_modbus_rtu_over_tcp(&payload).unwrap();
    assert_eq!(frame.address, 1);
    assert_eq!(frame.function_code, 3);
    assert_eq!(frame.data, vec![0xAA, 0xBB]);
    assert_eq!(frame.crc, Some(0xDDCC));
}

#[test]
fn rtu_over_tcp_rejects_short_payload() {
    let payload = [0x00u8, 0x01, 0x00, 0x00, 0x00, 0x06, 0x01];
    assert_eq!(parse_modbus_rtu_over_tcp(&payload).unwrap_err(), ModbusError::InvalidLength);
}

#[test]
fn parse_trait_uses_rtu_framing() {
    let payload = [0x11u8, 0x05, 0x01, 0x02, 0x03, 0x04];
    let frame = ModbusPacket::parse(&payload).unwrap();
    assert_eq!(frame.address, 0x11);
    assert_eq!(frame.function_code, 5);
    assert_eq!(frame.data, vec![0x01, 0x02]);
    assert_eq!(frame.crc, Some(0x0403));
}
