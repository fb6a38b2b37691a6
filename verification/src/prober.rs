//! The stateless probe codec: `pack` builds the IPv4/UDP probe packet that
//! embeds the send TTL, probe phase and a truncated millisecond timestamp in
//! header fields, and `parse` recovers them from the raw IPv4 datagram of an
//! ICMP reply.

use vstd::prelude::*;
use crate::addr::Ipv4Address;
use crate::error::Error;
use crate::utils::{ip_checksum, spec_ip_checksum, timestamp_ms_u16};

verus! {

/// Best-effort diagnostics recovered from a reply.
#[derive(Default, Debug, Clone, Copy, PartialEq, Eq, Structural)]
pub struct ProbeDebugResult {
    /// Round-trip time in milliseconds; 0 when timestamp encoding is off.
    pub rtt: u16,
}

/// What one ICMP reply tells us.
#[derive(Debug, Clone, Copy, PartialEq, Eq, Structural)]
pub struct ProbeResult {
    /// The probe's intended target, recovered from the echoed probe header.
    pub destination: Ipv4Address,
    /// The source of the ICMP reply.
    pub responder: Ipv4Address,
    /// Hop count from the prober to the responder, 1-based.
    pub distance: u8,
    /// True iff the reply is a Destination Unreachable with code 1, 2 or 3.
    pub from_destination: bool,
    pub debug: ProbeDebugResult,
}

/// Which probing phase a packet belongs to; one bit of the IP identification
/// field carries it.
#[derive(Debug, Clone, Copy, PartialEq, Eq, Structural)]
pub enum ProbePhase {
    Pre,
    Main,
}

/// A probe order: destination address and the TTL to send with.
pub type ProbeUnit = (Ipv4Address, u8);

/// The stateless packet encoder/decoder with its configuration.
#[derive(Debug, Clone)]
pub struct Prober {
    pub phase: ProbePhase,
    pub encode_timestamp: bool,
    /// UDP destination port of outgoing probes.
    pub dst_port: u16,
    /// Salt added to the per-destination cookie.
    pub salt: u16,
    /// ASCII message padded into the probe payload.
    pub payload: Vec<u8>,
}

/// The 16-bit big-endian value at byte offset `i`.
pub open spec fn be16_at(b: Seq<u8>, i: int) -> u16 {
    (((b[i] as int) * 256 + (b[i + 1] as int)) as u16)
}

/// The IPv4 address whose four octets sit at byte offset `i`.
pub open spec fn ipv4_at(b: Seq<u8>, i: int) -> Ipv4Address {
    Ipv4Address::spec_from_octets(b[i], b[i + 1], b[i + 2], b[i + 3])
}

/// High byte of a 16-bit value.
pub open spec fn hi16(x: u16) -> u8 {
    (x >> 8) as u8
}

/// Low byte of a 16-bit value.
pub open spec fn lo16(x: u16) -> u8 {
    x as u8
}

pub open spec fn spec_phase_bit(p: ProbePhase) -> u16 {
    match p {
        ProbePhase::Pre => 0u16,
        ProbePhase::Main => 1u16,
    }
}

/// Declared IP total length: 128, with the high six bits of the timestamp
/// folded into bits 1..6 when timestamp encoding is on.
pub open spec fn spec_total_length(encode_timestamp: bool, ts: u16) -> u16 {
    if encode_timestamp {
        128u16 | (((ts >> 10) & 0x3F) << 1)
    } else {
        128u16
    }
}

/// IP identification: bits 0..4 carry the TTL (mod 32), bit 5 the phase, and
/// bits 6..15 the low ten bits of the timestamp when encoding is on.
pub open spec fn spec_ip_id(ttl: u8, phase: ProbePhase, encode_timestamp: bool, ts: u16) -> u16 {
    let base = ((ttl as u16) & 0x1F) | (spec_phase_bit(phase) << 5);
    if encode_timestamp {
        base | ((ts & 0x3FF) << 6)
    } else {
        base
    }
}

/// The 28 header bytes of a probe: an IPv4 header without options followed by
/// a UDP header whose source port is the per-destination cookie. Checksums
/// are left zero.
pub open spec fn spec_pack_header(
    total: u16,
    id: u16,
    ttl: u8,
    src: Ipv4Address,
    dst: Ipv4Address,
    cookie: u16,
    dst_port: u16,
    udp_len: u16,
) -> Seq<u8> {
    seq![
        0x45u8,
        0u8,
        hi16(total),
        lo16(total),
        hi16(id),
        lo16(id),
        0u8,
        0u8,
        ttl,
        17u8,
        0u8,
        0u8,
        src.spec_oct0(),
        src.spec_oct1(),
        src.spec_oct2(),
        src.spec_oct3(),
        dst.spec_oct0(),
        dst.spec_oct1(),
        dst.spec_oct2(),
        dst.spec_oct3(),
        hi16(cookie),
        lo16(cookie),
        hi16(dst_port),
        lo16(dst_port),
        hi16(udp_len),
        lo16(udp_len),
        0u8,
        0u8,
    ]
}

impl Prober {
    pub fn new(
        phase: ProbePhase,
        encode_timestamp: bool,
        dst_port: u16,
        salt: u16,
        payload: Vec<u8>,
    ) -> (r: Prober)
        ensures
            r.phase == phase,
            r.encode_timestamp == encode_timestamp,
            r.dst_port == dst_port,
            r.salt == salt,
            r.payload == payload,
    {
        Prober { phase, encode_timestamp, dst_port, salt, payload }
    }

    /// The complete probe packet sent for `destination` at timestamp `ts`:
    /// the 28 header bytes, then the configured payload message padded with
    /// zeros up to the declared total length.
    pub open spec fn spec_pack(
        self,
        destination: ProbeUnit,
        source_ip: Ipv4Address,
        ts: u16,
    ) -> Seq<u8> {
        let dst = destination.0;
        let ttl = destination.1;
        let total = spec_total_length(self.encode_timestamp, ts);
        let id = spec_ip_id(ttl, self.phase, self.encode_timestamp, ts);
        let cookie = spec_ip_checksum(dst, self.salt);
        let udp_len = (total - 20) as u16;
        spec_pack_header(total, id, ttl, source_ip, dst, cookie, self.dst_port, udp_len)
            + Seq::new(
            (total - 28) as nat,
            |i: int|
                if i < self.payload@.len() {
                    self.payload@[i]
                } else {
                    0u8
                },
        )
    }

    /// Builds the probe packet for a given send timestamp.
    pub fn pack_at(
        &self,
        destination: ProbeUnit,
        source_ip: Ipv4Address,
        timestamp: u16,
    ) -> (r: Vec<u8>)
        requires
            self.payload@.len() <= 100,
        ensures
            r@ == self.spec_pack(destination, source_ip, timestamp),
    {
        let (dst, ttl) = destination;
        let total: u16 = if self.encode_timestamp {
            128u16 | (((timestamp >> 10) & 0x3F) << 1)
        } else {
            128u16
        };
        proof {
            assert(128u16 <= (128u16 | (((timestamp >> 10) & 0x3F) << 1)) < 255) by (bit_vector);
        }
        let phase_bit: u16 = match self.phase {
            ProbePhase::Pre => 0,
            ProbePhase::Main => 1,
        };
        let base_id: u16 = ((ttl as u16) & 0x1F) | (phase_bit << 5);
        proof {
            assert(((ttl as u16) & 0x1F) | (phase_bit << 5) < 64) by (bit_vector)
                requires
                    phase_bit == 0 || phase_bit == 1,
            ;
        }
        let id: u16 = if self.encode_timestamp {
            base_id | ((timestamp & 0x3FF) << 6)
        } else {
            base_id
        };
        let cookie: u16 = ip_checksum(dst, self.salt);
        let udp_len: u16 = total - 20;
        let (s0, s1, s2, s3) = source_ip.octets();
        let (d0, d1, d2, d3) = dst.octets();

        let ghost header = spec_pack_header(
            total,
            id,
            ttl,
            source_ip,
            dst,
            cookie,
            self.dst_port,
            udp_len,
        );
        let ghost padded = Seq::new(
            (total - 28) as nat,
            |i: int|
                if i < self.payload@.len() {
                    self.payload@[i]
                } else {
                    0u8
                },
        );

        let mut v: Vec<u8> = Vec::new();
        v.push(0x45);
        v.push(0);
        v.push((total >> 8) as u8);
        v.push(total as u8);
        v.push((id >> 8) as u8);
        v.push(id as u8);
        v.push(0);
        v.push(0);
        v.push(ttl);
        v.push(17);
        v.push(0);
        v.push(0);
        v.push(s0);
        v.push(s1);
        v.push(s2);
        v.push(s3);
        v.push(d0);
        v.push(d1);
        v.push(d2);
        v.push(d3);
        v.push((cookie >> 8) as u8);
        v.push(cookie as u8);
        v.push((self.dst_port >> 8) as u8);
        v.push(self.dst_port as u8);
        v.push((udp_len >> 8) as u8);
        v.push(udp_len as u8);
        v.push(0);
        v.push(0);
        proof {
            assert(v@ =~= header);
        }

        let mut i: usize = 0;
        while i < self.payload.len()
            invariant
                i <= self.payload@.len(),
                self.payload@.len() <= 100,
                total >= 128,
                v@.len() == 28 + i,
                padded == Seq::new(
                    (total - 28) as nat,
                    |k: int|
                        if k < self.payload@.len() {
                            self.payload@[k]
                        } else {
                            0u8
                        },
                ),
                forall|j: int| 0 <= j < 28 ==> v@[j] == header[j],
                forall|j: int| 28 <= j < v@.len() ==> v@[j] == padded[j - 28],
            decreases self.payload@.len() - i,
        {
            v.push(self.payload[i]);
            i += 1;
        }

        while v.len() < total as usize
            invariant
                self.payload@.len() <= 100,
                total >= 128,
                28 + self.payload@.len() <= v@.len() <= total,
                padded == Seq::new(
                    (total - 28) as nat,
                    |k: int|
                        if k < self.payload@.len() {
                            self.payload@[k]
                        } else {
                            0u8
                        },
                ),
                forall|j: int| 0 <= j < 28 ==> v@[j] == header[j],
                forall|j: int| 28 <= j < v@.len() ==> v@[j] == padded[j - 28],
            decreases total - v@.len(),
        {
            v.push(0);
        }

        proof {
            assert(v@ =~= header + padded);
        }
        v
    }

    /// Builds the probe packet, stamping it with the current wall clock.
    pub fn pack(&self, destination: ProbeUnit, source_ip: Ipv4Address) -> (r: Vec<u8>)
        requires
            self.payload@.len() <= 100,
        ensures
            exists|ts: u16| r@ == self.spec_pack(destination, source_ip, ts),
    {
        let ts = timestamp_ms_u16();
        let r = self.pack_at(destination, source_ip, ts);
        proof {
            assert(r@ == self.spec_pack(destination, source_ip, ts));
        }
        r
    }
}

/// Where the payload of an IPv4 header that starts at byte offset `at`
/// begins, relative to `at`: one past the options, and never inside the
/// 20 fixed header bytes.
pub open spec fn ip_payload_start(b: Seq<u8>, at: int) -> int {
    let ihl4 = ((b[at] & 0x0F) as int) * 4;
    if ihl4 < 20 {
        20int
    } else {
        ihl4
    }
}

/// How many payload bytes that header governs, when `limit` bytes follow
/// `at`: the declared total length minus the header, clipped to what is
/// actually there.
pub open spec fn ip_payload_len(b: Seq<u8>, at: int, limit: int) -> int {
    let ihl4 = ((b[at] & 0x0F) as int) * 4;
    let total = be16_at(b, at + 2) as int;
    let start = ip_payload_start(b, at);
    let pay = if total >= ihl4 {
        total - ihl4
    } else {
        0int
    };
    let end = if start + pay < limit {
        start + pay
    } else {
        limit
    };
    if limit <= start {
        0int
    } else {
        end - start
    }
}

/// Computes the payload window of the IPv4 header at `at`, with `limit`
/// bytes following `at`.
fn ip_payload_bounds(packet: &[u8], at: usize, limit: usize) -> (r: (usize, usize))
    requires
        at + 20 <= packet@.len(),
        limit <= packet@.len() - at,
    ensures
        r.0 == ip_payload_start(packet@, at as int),
        r.1 == ip_payload_len(packet@, at as int, limit as int),
        r.1 > 0 ==> r.0 + r.1 <= limit,
{
    let ihl4: usize = ((packet[at] & 0x0F) as usize) * 4;
    let total: usize = read_u16_at(packet, at + 2) as usize;
    let start: usize = if ihl4 < 20 {
        20
    } else {
        ihl4
    };
    let pay: usize = if total >= ihl4 {
        total - ihl4
    } else {
        0
    };
    let upper: usize = start + pay;
    let end: usize = if upper < limit {
        upper
    } else {
        limit
    };
    let plen: usize = if limit <= start {
        0
    } else {
        end - start
    };
    (start, plen)
}

/// Reads the 16-bit big-endian value at byte offset `i`.
fn read_u16_at(packet: &[u8], i: usize) -> (r: u16)
    requires
        i + 2 <= packet@.len(),
    ensures
        r == be16_at(packet@, i as int),
{
    (packet[i] as u16) * 256 + (packet[i + 1] as u16)
}

/// Reads the IPv4 address whose octets sit at byte offset `i`.
fn read_ipv4_at(packet: &[u8], i: usize) -> (r: Ipv4Address)
    requires
        i + 4 <= packet@.len(),
    ensures
        r == ipv4_at(packet@, i as int),
{
    Ipv4Address::from_octets(packet[i], packet[i + 1], packet[i + 2], packet[i + 3])
}

/// The send timestamp reconstructed from the echoed probe header: ten low
/// bits from the identification field, six high bits from the total length.
pub open spec fn spec_send_ts(b: Seq<u8>) -> u16 {
    ((be16_at(b, 32) >> 6) & 0x3FF) | (((be16_at(b, 30) >> 1) & 0x3F) << 10)
}

impl Prober {
    /// Round-trip time in milliseconds: receive timestamp minus the
    /// reconstructed send timestamp, modulo 2^16; zero when timestamp
    /// encoding is off.
    pub open spec fn spec_rtt(self, b: Seq<u8>, recv_ts: u16) -> u16 {
        if self.encode_timestamp {
            let send = spec_send_ts(b);
            if recv_ts >= send {
                (recv_ts - send) as u16
            } else {
                ((recv_ts + 0x10000) - send) as u16
            }
        } else {
            0u16
        }
    }

    /// What `parse` returns on `b` when the reply is read at `recv_ts`
    /// milliseconds.
    ///
    /// The stages mirror the decoder: the outer IPv4 header (stage 1), the
    /// ICMP header inside its payload (stage 2), the echoed probe IPv4 header
    /// at the fixed 28-byte offset (stage 3), and the echoed UDP header after
    /// it (stage 4); then the cookie check, and classification by ICMP
    /// type/code.
    pub open spec fn spec_parse(self, b: Seq<u8>, ignore_port: bool, recv_ts: u16) -> Result<
        ProbeResult,
        Error,
    > {
        let len = b.len() as int;
        if len < 20 {
            Err(Error::ParseError(1))
        } else {
            let start_o = ip_payload_start(b, 0);
            let icmp_len = ip_payload_len(b, 0, len);
            if icmp_len < 4 {
                Err(Error::ParseError(2))
            } else if len < 48 {
                Err(Error::ParseError(3))
            } else {
                let start_i = ip_payload_start(b, 28);
                let udp_len = ip_payload_len(b, 28, len - 28);
                if udp_len < 8 {
                    Err(Error::ParseError(4))
                } else {
                    let destination = ipv4_at(b, 44);
                    let src_port = be16_at(b, 28 + start_i);
                    let expected = spec_ip_checksum(destination, self.salt);
                    if src_port != expected && !ignore_port {
                        Err(Error::UnexpectedIcmpSrcPort(src_port, expected))
                    } else {
                        let id = be16_at(b, 32);
                        let ttl_bits = id & 0x1F;
                        let initial_ttl = if ttl_bits == 0 {
                            32u8
                        } else {
                            ttl_bits as u8
                        };
                        let dst_ttl = b[36];
                        let icmp_type = b[start_o];
                        let icmp_code = b[start_o + 1];
                        let responder = ipv4_at(b, 12);
                        if icmp_type == 3 && (icmp_code == 1 || icmp_code == 2 || icmp_code == 3) {
                            if initial_ttl < dst_ttl {
                                Err(Error::InvalidDistance(initial_ttl, dst_ttl))
                            } else {
                                Ok(
                                    ProbeResult {
                                        destination,
                                        responder,
                                        distance: (initial_ttl - dst_ttl + 1) as u8,
                                        from_destination: true,
                                        debug: ProbeDebugResult { rtt: self.spec_rtt(b, recv_ts) },
                                    },
                                )
                            }
                        } else if icmp_type == 11 {
                            Ok(
                                ProbeResult {
                                    destination,
                                    responder,
                                    distance: initial_ttl,
                                    from_destination: false,
                                    debug: ProbeDebugResult { rtt: self.spec_rtt(b, recv_ts) },
                                },
                            )
                        } else {
                            Err(Error::UnexpectedIcmpType(icmp_type, icmp_code))
                        }
                    }
                }
            }
        }
    }

    /// Decodes the raw IPv4 datagram of an ICMP reply, computing the
    /// round-trip time against the given receive timestamp.
    pub fn parse_at(&self, packet: &[u8], ignore_port: bool, recv_ts: u16) -> (r: Result<
        ProbeResult,
        Error,
    >)
        ensures
            r == self.spec_parse(packet@, ignore_port, recv_ts),
    {
        let len = packet.len();
        if len < 20 {
            return Err(Error::ParseError(1));
        }
        let (start_o, icmp_len) = ip_payload_bounds(packet, 0, len);
        if icmp_len < 4 {
            return Err(Error::ParseError(2));
        }
        if len < 48 {
            return Err(Error::ParseError(3));
        }
        let (start_i, udp_len) = ip_payload_bounds(packet, 28, len - 28);
        if udp_len < 8 {
            return Err(Error::ParseError(4));
        }
        let destination = read_ipv4_at(packet, 44);
        let src_port = read_u16_at(packet, 28 + start_i);
        let expected = ip_checksum(destination, self.salt);
        if src_port != expected && !ignore_port {
            return Err(Error::UnexpectedIcmpSrcPort(src_port, expected));
        }
        let id = read_u16_at(packet, 32);
        let ttl_bits = id & 0x1F;
        proof {
            assert(id & 0x1F <= 0x1F) by (bit_vector);
        }
        let initial_ttl: u8 = if ttl_bits == 0 {
            32
        } else {
            ttl_bits as u8
        };
        let dst_ttl = packet[36];
        let icmp_type = packet[start_o];
        let icmp_code = packet[start_o + 1];
        let responder = read_ipv4_at(packet, 12);

        let rtt: u16 = if self.encode_timestamp {
            let total_i = read_u16_at(packet, 30);
            let send: u16 = ((id >> 6) & 0x3FF) | (((total_i >> 1) & 0x3F) << 10);
            if recv_ts >= send {
                recv_ts - send
            } else {
                ((recv_ts as u32 + 0x10000) - send as u32) as u16
            }
        } else {
            0
        };

        if icmp_type == 3 && (icmp_code == 1 || icmp_code == 2 || icmp_code == 3) {
            if initial_ttl < dst_ttl {
                return Err(Error::InvalidDistance(initial_ttl, dst_ttl));
            }
            Ok(
                ProbeResult {
                    destination,
                    responder,
                    distance: initial_ttl - dst_ttl + 1,
                    from_destination: true,
                    debug: ProbeDebugResult { rtt },
                },
            )
        } else if icmp_type == 11 {
            Ok(
                ProbeResult {
                    destination,
                    responder,
                    distance: initial_ttl,
                    from_destination: false,
                    debug: ProbeDebugResult { rtt },
                },
            )
        } else {
            Err(Error::UnexpectedIcmpType(icmp_type, icmp_code))
        }
    }

    /// Decodes a reply, reading the receive time from the wall clock. The
    /// decoded addresses, distance and classification do not depend on the
    /// clock; only the reported round-trip time does.
    pub fn parse(&self, packet: &[u8], ignore_port: bool) -> (r: Result<ProbeResult, Error>)
        ensures
            exists|ts: u16| r == self.spec_parse(packet@, ignore_port, ts),
            strip_rtt(r) == strip_rtt(self.spec_parse(packet@, ignore_port, 0)),
    {
        let ts = timestamp_ms_u16();
        let r = self.parse_at(packet, ignore_port, ts);
        proof {
            assert(r == self.spec_parse(packet@, ignore_port, ts));
            self.lemma_parse_rtt_independent(packet@, ignore_port, ts, 0);
        }
        r
    }

    /// The decode outcome does not depend on the receive timestamp, except
    /// for the reported round-trip time.
    pub proof fn lemma_parse_rtt_independent(self, b: Seq<u8>, ignore_port: bool, ts1: u16, ts2: u16)
        ensures
            strip_rtt(self.spec_parse(b, ignore_port, ts1)) == strip_rtt(
                self.spec_parse(b, ignore_port, ts2),
            ),
    {
    }
}

/// The same decode outcome with the round-trip time zeroed out.
pub open spec fn strip_rtt(r: Result<ProbeResult, Error>) -> Result<ProbeResult, Error> {
    match r {
        Ok(pr) => Ok(ProbeResult { debug: ProbeDebugResult { rtt: 0 }, ..pr }),
        Err(e) => Err(e),
    }
}

/// Reading back the two bytes of a 16-bit value gives the value back.
pub proof fn lemma_be16_of_bytes(x: u16)
    ensures
        ((((x >> 8) as u8) as int) * 256 + ((x as u8) as int)) as u16 == x,
{
    assert(((((x >> 8) as u8) as int) * 256 + ((x as u8) as int)) as u16 == x) by (bit_vector);
}

/// A minimal ICMP Time Exceeded reply from `responder` that echoes `inner`:
/// a 20-byte outer IPv4 header declaring ICMP, an 8-byte Time Exceeded
/// header, then the echoed packet.
pub open spec fn time_exceeded_envelope(responder: Ipv4Address, inner: Seq<u8>) -> Seq<u8> {
    let total = (28 + inner.len()) as u16;
    seq![
        0x45u8,
        0u8,
        hi16(total),
        lo16(total),
        0u8,
        0u8,
        0u8,
        0u8,
        64u8,
        1u8,
        0u8,
        0u8,
        responder.spec_oct0(),
        responder.spec_oct1(),
        responder.spec_oct2(),
        responder.spec_oct3(),
        0u8,
        0u8,
        0u8,
        0u8,
        11u8,
        0u8,
        0u8,
        0u8,
        0u8,
        0u8,
        0u8,
        0u8,
    ] + inner
}

/// Law: a probe packet re-injected as a synthetic Time Exceeded envelope
/// decodes back to its own destination — with the responder taken from the
/// envelope, the hop distance equal to the embedded five-bit TTL (zero
/// standing for 32), and the reply classed as coming from the path, not the
/// destination. The cookie check passes because the echoed UDP source port
/// is recomputed from the same destination and salt.
pub proof fn lemma_parse_inverts_pack(
    p: Prober,
    unit: ProbeUnit,
    source_ip: Ipv4Address,
    send_ts: u16,
    responder: Ipv4Address,
    recv_ts: u16,
)
    ensures
        ({
            let packet = p.spec_pack(unit, source_ip, send_ts);
            let env = time_exceeded_envelope(responder, packet);
            let r = p.spec_parse(env, false, recv_ts);
            r matches Ok(pr) && pr.destination == unit.0 && pr.responder == responder
                && pr.from_destination == false && pr.distance == (if unit.1 & 0x1F == 0 {
                32u8
            } else {
                unit.1 & 0x1F
            })
        }),
{
    let dst = unit.0;
    let ttl = unit.1;
    let enc = p.encode_timestamp;
    let total = spec_total_length(enc, send_ts);
    let id = spec_ip_id(ttl, p.phase, enc, send_ts);
    let cookie = spec_ip_checksum(dst, p.salt);
    let udp_len_f = (total - 20) as u16;
    let header = spec_pack_header(total, id, ttl, source_ip, dst, cookie, p.dst_port, udp_len_f);
    let packet = p.spec_pack(unit, source_ip, send_ts);
    if enc {
        assert(128u16 <= (128u16 | (((send_ts >> 10) & 0x3F) << 1)) < 255) by (bit_vector);
    }
    assert(packet.len() == total);
    let env = time_exceeded_envelope(responder, packet);
    let env_total = (28 + packet.len()) as u16;
    let len = env.len() as int;
    assert(len == 28 + total);

    // The outer header: fixed-size, protocol ICMP, source = responder.
    assert(env[0] == 0x45u8);
    assert(env[2] == hi16(env_total) && env[3] == lo16(env_total));
    assert(env[12] == responder.spec_oct0() && env[13] == responder.spec_oct1() && env[14]
        == responder.spec_oct2() && env[15] == responder.spec_oct3());
    assert(env[20] == 11u8 && env[21] == 0u8);
    // The echoed probe bytes sit 28 bytes in.
    assert(forall|k: int| 0 <= k < 28 ==> env[28 + k] == header[k]);

    assert(0x45u8 & 0x0F == 5) by (bit_vector);
    assert(ip_payload_start(env, 0) == 20);
    lemma_be16_of_bytes(env_total);
    assert(be16_at(env, 2) == env_total);
    assert(ip_payload_len(env, 0, len) == len - 20);

    assert(env[28] == 0x45u8);
    assert(ip_payload_start(env, 28) == 20);
    lemma_be16_of_bytes(total);
    assert(env[30] == hi16(total) && env[31] == lo16(total));
    assert(be16_at(env, 30) == total);
    assert(ip_payload_len(env, 28, len - 28) == total - 20);

    assert(env[44] == dst.spec_oct0() && env[45] == dst.spec_oct1() && env[46] == dst.spec_oct2()
        && env[47] == dst.spec_oct3());
    dst.lemma_octets_roundtrip();
    assert(ipv4_at(env, 44) == dst);
    responder.lemma_octets_roundtrip();
    assert(ipv4_at(env, 12) == responder);

    lemma_be16_of_bytes(cookie);
    assert(env[48] == hi16(cookie) && env[49] == lo16(cookie));
    assert(be16_at(env, 48int) == cookie);

    lemma_be16_of_bytes(id);
    assert(env[32] == hi16(id) && env[33] == lo16(id));
    assert(be16_at(env, 32) == id);
    let pb = spec_phase_bit(p.phase);
    if enc {
        assert((((((ttl as u16) & 0x1F) | (pb << 5)) | ((send_ts & 0x3FF) << 6)) & 0x1F) == (
        ttl as u16) & 0x1F) by (bit_vector)
            requires
                pb == 0 || pb == 1,
        ;
    } else {
        assert(((((ttl as u16) & 0x1F) | (pb << 5)) & 0x1F) == (ttl as u16) & 0x1F) by (bit_vector)
            requires
                pb == 0 || pb == 1,
        ;
    }
    assert(id & 0x1F == (ttl as u16) & 0x1F);
    assert(((ttl as u16) & 0x1F == 0) == (ttl & 0x1F == 0)) by (bit_vector);
    assert(((ttl as u16) & 0x1F) as u8 == ttl & 0x1F) by (bit_vector);
}

} // verus!
