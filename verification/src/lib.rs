//! Application-layer engine of a multi-layer packet decoder.
//!
//! Given the transport-layer payload of a captured frame, the library
//! classifies it by well-known port, reassembles TCP-carried byte streams
//! per flow, and decodes complete application messages (HTTP, TLS, DNS,
//! Modbus) into structured records, with explicit outcomes for malformed
//! and partial input.

pub mod bytes;
pub mod classify;
pub mod dispatch;
pub mod dns;
pub mod flow;
pub mod http;
pub mod modbus;
pub mod outcome;
pub mod record;
pub mod store;
pub mod tls;
