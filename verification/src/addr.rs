//! IPv4 addresses and networks as plain integers, together with the
//! global-routability test used when filtering generated targets.

use vstd::prelude::*;

verus! {

/// An IPv4 address, held as the 32-bit integer value of its dotted-quad form
/// (first octet in the most significant byte).
#[derive(Clone, Copy, PartialEq, Eq, Structural, Debug, Hash)]
pub struct Ipv4Address {
    pub bits: u32,
}

impl Ipv4Address {
    /// First octet of the dotted-quad form.
    pub open spec fn spec_oct0(self) -> u8 {
        (self.bits >> 24) as u8
    }

    /// Second octet of the dotted-quad form.
    pub open spec fn spec_oct1(self) -> u8 {
        (self.bits >> 16) as u8
    }

    /// Third octet of the dotted-quad form.
    pub open spec fn spec_oct2(self) -> u8 {
        (self.bits >> 8) as u8
    }

    /// Fourth octet of the dotted-quad form.
    pub open spec fn spec_oct3(self) -> u8 {
        self.bits as u8
    }

    pub open spec fn spec_from_octets(o0: u8, o1: u8, o2: u8, o3: u8) -> Ipv4Address {
        Ipv4Address {
            bits: (((o0 as u32) << 24) | ((o1 as u32) << 16) | ((o2 as u32) << 8) | (o3 as u32)),
        }
    }

    pub fn from_octets(o0: u8, o1: u8, o2: u8, o3: u8) -> (r: Ipv4Address)
        ensures
            r == Self::spec_from_octets(o0, o1, o2, o3),
    {
        Ipv4Address {
            bits: (((o0 as u32) << 24) | ((o1 as u32) << 16) | ((o2 as u32) << 8) | (o3 as u32)),
        }
    }

    pub fn octets(&self) -> (r: (u8, u8, u8, u8))
        ensures
            r == (self.spec_oct0(), self.spec_oct1(), self.spec_oct2(), self.spec_oct3()),
    {
        (
            (self.bits >> 24) as u8,
            (self.bits >> 16) as u8,
            (self.bits >> 8) as u8,
            self.bits as u8,
        )
    }

    /// Reassembling an address from its four octets gives the address back.
    pub proof fn lemma_octets_roundtrip(self)
        ensures
            Ipv4Address::spec_from_octets(
                self.spec_oct0(),
                self.spec_oct1(),
                self.spec_oct2(),
                self.spec_oct3(),
            ) == self,
    {
        let b = self.bits;
        assert(((((b >> 24) as u8) as u32) << 24) | ((((b >> 16) as u8) as u32) << 16) | ((((b
            >> 8) as u8) as u32) << 8) | ((b as u8) as u32) == b) by (bit_vector);
    }

    /// 10.0.0.0/8, 172.16.0.0/12 or 192.168.0.0/16.
    pub open spec fn spec_is_private(self) -> bool {
        ||| self.spec_oct0() == 10
        ||| (self.spec_oct0() == 172 && (self.spec_oct1() & 0xf0) == 16)
        ||| (self.spec_oct0() == 192 && self.spec_oct1() == 168)
    }

    /// 127.0.0.0/8.
    pub open spec fn spec_is_loopback(self) -> bool {
        self.spec_oct0() == 127
    }

    /// 169.254.0.0/16.
    pub open spec fn spec_is_link_local(self) -> bool {
        self.spec_oct0() == 169 && self.spec_oct1() == 254
    }

    /// 255.255.255.255.
    pub open spec fn spec_is_broadcast(self) -> bool {
        self.bits == 0xffff_ffffu32
    }

    /// 192.0.2.0/24, 198.51.100.0/24 or 203.0.113.0/24.
    pub open spec fn spec_is_documentation(self) -> bool {
        ||| (self.spec_oct0() == 192 && self.spec_oct1() == 0 && self.spec_oct2() == 2)
        ||| (self.spec_oct0() == 198 && self.spec_oct1() == 51 && self.spec_oct2() == 100)
        ||| (self.spec_oct0() == 203 && self.spec_oct1() == 0 && self.spec_oct2() == 113)
    }

    /// Globally routable in the sense used for target filtering: not private,
    /// loopback, link-local, broadcast, documentation, carrier-grade NAT
    /// (100.64.0.0/10), 192.0.0.0/24 reserved, 240.0.0.0/4 reserved,
    /// 198.18.0.0/15 benchmarking, or 0.0.0.0/8 — except that 192.0.0.9 and
    /// 192.0.0.10, the only globally routable hosts in 192.0.0.0/24, are kept.
    pub open spec fn spec_is_bz_global(self) -> bool {
        if self.bits == 0xc0000009u32 || self.bits == 0xc000000au32 {
            true
        } else {
            &&& !self.spec_is_private()
            &&& !self.spec_is_loopback()
            &&& !self.spec_is_link_local()
            &&& !self.spec_is_broadcast()
            &&& !self.spec_is_documentation()
            &&& !(self.spec_oct0() == 100 && (self.spec_oct1() & 0b1100_0000) == 0b0100_0000)
            &&& !(self.spec_oct0() == 192 && self.spec_oct1() == 0 && self.spec_oct2() == 0)
            &&& !((self.spec_oct0() & 240) == 240 && !self.spec_is_broadcast())
            &&& !(self.spec_oct0() == 198 && (self.spec_oct1() & 0xfe) == 18)
            &&& self.spec_oct0() != 0
        }
    }
}

/// Extension trait carrying the global-routability test for IPv4 addresses.
pub trait GlobalIpv4Ext {
    spec fn bz_global(&self) -> bool;

    fn is_bz_global(&self) -> (r: bool)
        ensures
            r == self.bz_global(),
    ;
}

impl GlobalIpv4Ext for Ipv4Address {
    open spec fn bz_global(&self) -> bool {
        self.spec_is_bz_global()
    }

    fn is_bz_global(&self) -> (r: bool) {
        if self.bits == 0xc0000009u32 || self.bits == 0xc000000au32 {
            return true;
        }
        let o0 = (self.bits >> 24) as u8;
        let o1 = (self.bits >> 16) as u8;
        let o2 = (self.bits >> 8) as u8;
        let is_private = o0 == 10 || (o0 == 172 && (o1 & 0xf0) == 16) || (o0 == 192 && o1 == 168);
        let is_loopback = o0 == 127;
        let is_link_local = o0 == 169 && o1 == 254;
        let is_broadcast = self.bits == 0xffff_ffffu32;
        let is_documentation = (o0 == 192 && o1 == 0 && o2 == 2) || (o0 == 198 && o1 == 51 && o2
            == 100) || (o0 == 203 && o1 == 0 && o2 == 113);
        !is_private && !is_loopback && !is_link_local && !is_broadcast && !is_documentation && !(o0
            == 100 && (o1 & 0b1100_0000) == 0b0100_0000) && !(o0 == 192 && o1 == 0 && o2 == 0)
            && !((o0 & 240) == 240 && !is_broadcast) && !(o0 == 198 && (o1 & 0xfe) == 18) && o0 != 0
    }
}

/// An IPv4 network: an address together with a prefix length.
#[derive(Clone, Copy, PartialEq, Eq, Structural, Debug)]
pub struct Ipv4Net {
    pub addr: Ipv4Address,
    pub prefix: u8,
}

impl Ipv4Net {
    pub open spec fn wf(self) -> bool {
        self.prefix <= 32
    }

    /// Number of addresses covered by the network: 2^(32 - prefix).
    pub open spec fn spec_size(self) -> u64 {
        (1u64 << ((32 - self.prefix) as u64))
    }

    /// The first address of the network (the address with the host bits
    /// cleared), as an integer.
    pub open spec fn spec_network(self) -> int {
        ((self.addr.bits as u64) / self.spec_size()) * (self.spec_size() as int)
    }

    pub open spec fn spec_contains(self, a: Ipv4Address) -> bool {
        self.spec_network() <= a.bits < self.spec_network() + self.spec_size()
    }

    pub proof fn lemma_size_positive(self)
        requires
            self.wf(),
        ensures
            0 < self.spec_size() <= 0x1_0000_0000u64,
            self.spec_network() + self.spec_size() <= 0x1_0000_0000u64,
    {
        let h: u64 = (32 - self.prefix) as u64;
        let b = self.addr.bits as u64;
        assert(0 < (1u64 << h) <= 0x1_0000_0000u64) by (bit_vector)
            requires
                h <= 32,
        ;
        assert((b / (1u64 << h)) * (1u64 << h) + (1u64 << h) <= 0x1_0000_0000u64) by (bit_vector)
            requires
                h <= 32 && b < 0x1_0000_0000u64,
        ;
    }

    /// The first address of the network, computed.
    pub fn network(&self) -> (r: u32)
        requires
            self.wf(),
        ensures
            r == self.spec_network(),
    {
        proof {
            self.lemma_size_positive();
        }
        let size: u64 = 1u64 << ((32 - self.prefix) as u64);
        let base: u64 = ((self.addr.bits as u64) / size) * size;
        proof {
            assert(base < 0x1_0000_0000u64) by (nonlinear_arith)
                requires
                    0 < size,
                    base == ((self.addr.bits as u64) / size) * size,
                    (self.addr.bits as u64) < 0x1_0000_0000u64,
            ;
        }
        base as u32
    }

    pub fn contains(&self, a: Ipv4Address) -> (r: bool)
        requires
            self.wf(),
        ensures
            r == self.spec_contains(a),
    {
        proof {
            self.lemma_size_positive();
        }
        let size: u64 = 1u64 << ((32 - self.prefix) as u64);
        let base: u64 = ((self.addr.bits as u64) / size) * size;
        base <= (a.bits as u64) && (a.bits as u64) < base + size
    }
}

} // verus!
