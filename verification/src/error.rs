//! Error taxonomy of the probing core.

use vstd::prelude::*;
use crate::addr::Ipv4Net;

verus! {

/// Everything that can go wrong inside the core.
///
/// Setup errors (`NoSuchInterface`, `BadGrainOrNet`, `InvalidIpv4Addr`,
/// `IoError` during setup) are fatal; per-packet decoding errors
/// (`ParseError`, `UnexpectedIcmpSrcPort`, `UnexpectedIcmpType`,
/// `InvalidDistance`) are logged and the packet is dropped.
#[derive(Debug, Clone)]
pub enum Error {
    /// Interface selection failed for the named interface.
    NoSuchInterface(String),
    /// A malformed ICMP reply, with the layer stage (1 to 4) that failed.
    ParseError(u8),
    /// Cookie mismatch: the reply's UDP source port, then the expected one.
    UnexpectedIcmpSrcPort(u16, u16),
    /// A Destination Unreachable whose embedded initial TTL (first) is
    /// smaller than the remaining inner TTL (second).
    InvalidDistance(u8, u8),
    /// An ICMP class the decoder does not interpret: type, then code.
    UnexpectedIcmpType(u8, u8),
    /// The grain is too large for the target network.
    BadGrainOrNet(u8, Ipv4Net),
    /// A line of a target list that is not an IPv4 address.
    InvalidIpv4Addr(String),
    /// The target specification could not be resolved at all.
    CannotResolveTargets(String),
    /// Raw-socket input/output failed, with the reported message.
    IoError(String),
}

} // verus!
