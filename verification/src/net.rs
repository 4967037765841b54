//! IP addresses as plain values.
use vstd::prelude::*;

verus! {

/// An IPv4 address (its four octets) or an IPv6 address (its eight 16-bit
/// segments).
#[derive(Debug, Clone, Copy, PartialEq, Eq, Structural)]
pub enum IpAddress {
    V4(u8, u8, u8, u8),
    V6(u16, u16, u16, u16, u16, u16, u16, u16),
}

} // verus!
