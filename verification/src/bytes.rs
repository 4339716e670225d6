//! Byte-order readings used by the protocol framings.

use vstd::prelude::*;

verus! {

/// The 16-bit value read from two bytes in little-endian order.
pub open spec fn spec_u16_le(lo: u8, hi: u8) -> u16 {
    (lo + hi * 256) as u16
}

/// The 16-bit value read from two bytes in big-endian order.
pub open spec fn spec_u16_be(hi: u8, lo: u8) -> u16 {
    (hi * 256 + lo) as u16
}

/// The 32-bit value read from four bytes in big-endian order.
pub open spec fn spec_u32_be(b0: u8, b1: u8, b2: u8, b3: u8) -> u32 {
    (b0 * 0x1000000 + b1 * 0x10000 + b2 * 0x100 + b3) as u32
}

} // verus!
