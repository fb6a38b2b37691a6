//! The immutable configuration record consumed by the probing core. It is
//! built once at startup (by the command line front end, or by
//! `get_test_opt` for tests) and injected into each component.

use vstd::prelude::*;
use crate::addr::{Ipv4Address, Ipv4Net};

verus! {

/// Where the targets come from: a network to subsample, or an explicit list
/// of addresses (read from a file, one per line, by the caller).
#[derive(Debug, Clone)]
pub enum Targets {
    Net(Ipv4Net),
    List(Vec<Ipv4Address>),
}

/// The options the core reads. Parsing a command line into this record is
/// the front end's business.
#[derive(Debug, Clone)]
pub struct Opt {
    /// TTL of the one pre-probe sent per destination.
    pub preprobing_ttl: u8,
    /// How many neighbor keys on each side share a measured distance.
    pub proximity_span: u32,
    pub default_ttl: u8,
    /// Initial TTL estimate of every control block.
    pub split_ttl: u8,
    /// Absolute cap on forward probing.
    pub max_ttl: u8,
    /// How far past a discovered responder forward probing continues.
    pub gap: u8,
    /// Global probes per second.
    pub probing_rate: u64,
    /// Require at least two backward probes before a backward stop.
    pub two: bool,
    pub dst_port: u16,
    /// ASCII message padded into each probe.
    pub payload_message: Vec<u8>,
    pub seed: u64,
    pub salt: u16,
    pub dry_run: bool,
    pub grain: u8,
    pub targets: Targets,
    /// Keep only globally routable targets.
    pub global_only: bool,
    /// With `global_only`, also keep private addresses.
    pub allow_private: bool,
    /// Do not record destinations themselves in the backward stop set.
    pub router_only: bool,
    pub local_addr: Ipv4Address,
}

impl Opt {
    /// What the core needs of a configuration: TTL values that leave room in
    /// a byte, a payload that fits the fixed probe size, and a grain that
    /// fits an address.
    pub open spec fn wf(self) -> bool {
        &&& self.split_ttl < 255
        &&& self.max_ttl < 255
        &&& self.payload_message@.len() <= 100
        &&& self.grain <= 32
        &&& (self.targets matches Targets::Net(n) ==> n.wf())
    }
}

/// The configuration the tests run with: the 192.168.1.1/24 network at grain
/// 8, and the defaults everywhere else.
pub fn get_test_opt() -> (r: Opt)
    ensures
        r.wf(),
        r.preprobing_ttl == 32,
        r.proximity_span == 5,
        r.default_ttl == 8,
        r.split_ttl == 16,
        r.max_ttl == 32,
        r.gap == 5,
        r.probing_rate == 400000,
        !r.two,
        r.dst_port == 33434,
        r.seed == 114514,
        r.salt == 0,
        !r.dry_run,
        r.grain == 8,
        r.targets matches Targets::Net(n) && n == (Ipv4Net {
            addr: Ipv4Address::spec_from_octets(192, 168, 1, 1),
            prefix: 24,
        }),
        !r.global_only,
        !r.allow_private,
        !r.router_only,
        r.local_addr.bits == 0,
        r.payload_message@ =~= seq![
            72u8,
            111u8,
            119u8,
            32u8,
            97u8,
            114u8,
            101u8,
            32u8,
            121u8,
            111u8,
            117u8,
            63u8,
        ],
{
    // "How are you?"
    let mut payload: Vec<u8> = Vec::new();
    payload.push(72);
    payload.push(111);
    payload.push(119);
    payload.push(32);
    payload.push(97);
    payload.push(114);
    payload.push(101);
    payload.push(32);
    payload.push(121);
    payload.push(111);
    payload.push(117);
    payload.push(63);
    proof {
        assert(payload@ =~= seq![
            72u8,
            111u8,
            119u8,
            32u8,
            97u8,
            114u8,
            101u8,
            32u8,
            121u8,
            111u8,
            117u8,
            63u8,
        ]);
    }
    Opt {
        preprobing_ttl: 32,
        proximity_span: 5,
        default_ttl: 8,
        split_ttl: 16,
        max_ttl: 32,
        gap: 5,
        probing_rate: 400000,
        two: false,
        dst_port: 33434,
        payload_message: payload,
        seed: 114514,
        salt: 0,
        dry_run: false,
        grain: 8,
        targets: Targets::Net(
            Ipv4Net { addr: Ipv4Address::from_octets(192, 168, 1, 1), prefix: 24 },
        ),
        global_only: false,
        allow_private: false,
        router_only: false,
        local_addr: Ipv4Address { bits: 0 },
    }
}

} // verus!
