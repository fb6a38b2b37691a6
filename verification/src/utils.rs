//! The per-destination cookie checksum and the millisecond wall-clock
//! reading used for timestamp encoding.

use vstd::prelude::*;
use crate::addr::Ipv4Address;

verus! {

/// The Internet checksum of the four octets of `addr`, plus `salt`
/// (modulo 2^16): the two 16-bit halves are added, the carry folded back in,
/// the sum complemented, and the salt added.
pub open spec fn spec_ip_checksum(addr: Ipv4Address, salt: u16) -> u16 {
    let w0 = addr.bits >> 16;
    let w1 = addr.bits & 0xFFFF;
    let sum = w0 + w1;
    let folded = if sum > 0xFFFF {
        sum - 0x10000 + 1
    } else {
        sum
    };
    (((0xFFFF - folded) + salt) % 0x10000) as u16
}

/// The per-destination cookie carried in the UDP source port: the Internet
/// checksum over the destination address's four octets, plus the configured
/// salt (wrapping).
pub fn ip_checksum(addr: Ipv4Address, salt: u16) -> (r: u16)
    ensures
        r == spec_ip_checksum(addr, salt),
{
    let bits = addr.bits;
    let w0: u32 = bits >> 16;
    let w1: u32 = bits & 0xFFFF;
    proof {
        assert((bits >> 16) <= 0xFFFF && (bits & 0xFFFF) <= 0xFFFF) by (bit_vector);
    }
    let mut sum: u32 = w0 + w1;
    if sum > 0xFFFF {
        sum = sum - 0x10000 + 1;
    }
    let complement: u32 = 0xFFFF - sum;
    ((complement + salt as u32) % 0x10000) as u16
}

/// Relies on std::time::SystemTime::now, with duration_since and as_millis
/// converting the reading: the milliseconds of the wall clock since the Unix
/// epoch (zero for a clock before it). The result depends on the clock, so
/// nothing is promised of it.
#[verifier::external_body]
fn unix_epoch_millis() -> u128 {
    std::time::SystemTime::now().duration_since(std::time::UNIX_EPOCH).map(
        |d| d.as_millis(),
    ).unwrap_or(0)
}

/// Milliseconds of the current wall-clock time since the Unix epoch,
/// truncated to 16 bits.
pub fn timestamp_ms_u16() -> u16 {
    (unix_epoch_millis() % 0x10000) as u16
}

} // verus!
