use doubletrace::addr::Ipv4Address;
use doubletrace::error::Error;
use doubletrace::prober::{ProbePhase, Prober};
use doubletrace::utils::ip_checksum;

fn test_prober() -> Prober {
    Prober::new(ProbePhase::Pre, true, 33434, 0, b"How are you?".to_vec())
}

/// A minimal ICMP reply envelope: outer IPv4 (20 bytes) + ICMP header
/// (8 bytes) + echoed probe IPv4 header (20 bytes) + echoed UDP header
/// (8 bytes).
fn envelope(
    outer_src: [u8; 4],
    icmp_type: u8,
    icmp_code: u8,
    inner_dst: [u8; 4],
    inner_ttl: u8,
    inner_id: u16,
    src_port: u16,
) -> Vec<u8> {
    let mut v = vec![0u8; 56];
    v[0] = 0x45;
    v[2] = 0;
    v[3] = 56;
    v[8] = 64;
    v[9] = 1;
    v[12..16].copy_from_slice(&outer_src);
    v[20] = icmp_type;
    v[21] = icmp_code;
    v[28] = 0x45;
    v[30] = 0;
    v[31] = 28;
    v[32] = (inner_id >> 8) as u8;
    v[33] = inner_id as u8;
    v[36] = inner_ttl;
    v[37] = 17;
    v[44..48].copy_from_slice(&inner_dst);
    v[48] = (src_port >> 8) as u8;
    v[49] = src_port as u8;
    v[50] = 0x82;
    v[51] = 0x9a;
    v[53] = 8;
    v
}

#[test]
fn test_pack() {
    let prober = test_prober();
    let ip1 = Ipv4Address::from_octets(1, 2, 3, 4);
    let ip2 = Ipv4Address::from_octets(4, 3, 2, 1);
    let packet = prober.pack((ip1, 32), ip2);
    println!("{:#?}", packet);
}

#[test]
fn test_parse() {
    let prober = test_prober();
    {
        // Time Exceeded carrying an embedded initial TTL of 2.
        let frame = envelope([59, 78, 37, 254], 11, 0, [59, 78, 31, 75], 62, 2, 100);
        let result = prober.parse(&frame, true).unwrap();
        println!("{:#?}", result);
        assert_eq!(result.destination, Ipv4Address::from_octets(59, 78, 31, 75));
        assert_eq!(result.responder, Ipv4Address::from_octets(59, 78, 37, 254));
        assert_eq!(result.distance, 2);
        assert_eq!(result.from_destination, false);
    }
    {
        // Time Exceeded carrying an embedded initial TTL of 11.
        let frame = envelope([101, 4, 135, 214], 11, 0, [59, 78, 173, 84], 53, 11, 100);
        let result = prober.parse(&frame, true).unwrap();
        println!("{:#?}", result);
        assert_eq!(result.destination, Ipv4Address::from_octets(59, 78, 173, 84));
        assert_eq!(result.responder, Ipv4Address::from_octets(101, 4, 135, 214));
        assert_eq!(result.distance, 11);
        assert_eq!(result.from_destination, false);
    }
    {
        // Destination Unreachable from the destination itself: the embedded
        // five-bit TTL of 0 stands for 32, the inner TTL is 27, so the
        // distance is 32 - 27 + 1 = 6.
        let frame = envelope([59, 78, 17, 126], 3, 3, [59, 78, 17, 126], 27, 0, 100);
        let result = prober.parse(&frame, true).unwrap();
        println!("{:#?}", result);
        assert_eq!(result.destination, Ipv4Address::from_octets(59, 78, 17, 126));
        assert_eq!(result.responder, Ipv4Address::from_octets(59, 78, 17, 126));
        assert_eq!(result.distance, 6);
        assert_eq!(result.from_destination, true);
    }
}

#[test]
fn test_pack_layout() {
    // ts = 0x1234: total length = 128 | (((0x1234 >> 10) & 0x3f) << 1) = 136,
    // identification = (7 & 0x1f) | (1 << 5) | ((0x1234 & 0x3ff) << 6) = 0x8d27.
    let prober = Prober::new(ProbePhase::Main, true, 33434, 5, b"hi".to_vec());
    let dst = Ipv4Address::from_octets(1, 2, 3, 4);
    let src = Ipv4Address::from_octets(9, 8, 7, 6);
    let v = prober.pack_at((dst, 7), src, 0x1234);
    assert_eq!(v.len(), 136);
    assert_eq!(v[0], 0x45);
    assert_eq!((v[2], v[3]), (0, 136));
    assert_eq!((v[4], v[5]), (0x8d, 0x27));
    assert_eq!(v[8], 7);
    assert_eq!(v[9], 17);
    assert_eq!(&v[12..16], &[9, 8, 7, 6]);
    assert_eq!(&v[16..20], &[1, 2, 3, 4]);
    let cookie = ip_checksum(dst, 5);
    assert_eq!((v[20], v[21]), ((cookie >> 8) as u8, cookie as u8));
    assert_eq!((v[22], v[23]), (0x82, 0x9a));
    // UDP length = total - 20 = 116.
    assert_eq!((v[24], v[25]), (0, 116));
    assert_eq!(&v[28..30], b"hi");
    assert_eq!(v[30], 0);
    assert_eq!(v[135], 0);
}

#[test]
fn test_parse_of_packed_round_trip() {
    // A packed probe re-injected as a Time Exceeded envelope decodes back to
    // its own destination, with the cookie check on (strict mode).
    let prober = Prober::new(ProbePhase::Main, true, 33434, 7, b"How are you?".to_vec());
    let dst = Ipv4Address::from_octets(10, 20, 30, 40);
    let src = Ipv4Address::from_octets(192, 0, 2, 1);
    let responder = Ipv4Address::from_octets(203, 0, 113, 9);
    let inner = prober.pack_at((dst, 13), src, 0xbeef);
    let mut v = vec![0u8; 28];
    v[0] = 0x45;
    let total = 28 + inner.len() as u16;
    v[2] = (total >> 8) as u8;
    v[3] = total as u8;
    v[8] = 64;
    v[9] = 1;
    v[12..16].copy_from_slice(&[203, 0, 113, 9]);
    v[20] = 11;
    v.extend_from_slice(&inner);
    let result = prober.parse(&v, false).unwrap();
    assert_eq!(result.destination, dst);
    assert_eq!(result.responder, responder);
    assert_eq!(result.distance, 13);
    assert_eq!(result.from_destination, false);
}

#[test]
fn test_parse_error_stages() {
    let prober = test_prober();
    // Too short for an outer IPv4 header.
    assert!(matches!(prober.parse(&[0u8; 10], true), Err(Error::ParseError(1))));
    // Outer header but no room for an ICMP header: total length 20 leaves an
    // empty payload.
    let mut v = vec![0u8; 20];
    v[0] = 0x45;
    v[3] = 20;
    assert!(matches!(prober.parse(&v, true), Err(Error::ParseError(2))));
    // ICMP present, but too short for the echoed probe header.
    let mut v = vec![0u8; 40];
    v[0] = 0x45;
    v[3] = 40;
    v[20] = 11;
    assert!(matches!(prober.parse(&v, true), Err(Error::ParseError(3))));
    // Echoed probe header whose declared length leaves no UDP header.
    let mut v = envelope([1, 1, 1, 1], 11, 0, [2, 2, 2, 2], 9, 5, 100);
    v[31] = 20;
    assert!(matches!(prober.parse(&v, true), Err(Error::ParseError(4))));
}

#[test]
fn test_parse_unexpected_src_port() {
    // In strict mode a cookie mismatch is rejected; with ignore_port it is
    // accepted.
    let prober = test_prober();
    let dst = [59, 78, 31, 75];
    let want = ip_checksum(Ipv4Address::from_octets(59, 78, 31, 75), 0);
    let frame = envelope([9, 9, 9, 9], 11, 0, dst, 60, 3, want.wrapping_add(1));
    assert!(matches!(
        prober.parse(&frame, false),
        Err(Error::UnexpectedIcmpSrcPort(got, expected)) if got == want.wrapping_add(1) && expected == want
    ));
    assert!(prober.parse(&frame, true).is_ok());
    let good = envelope([9, 9, 9, 9], 11, 0, dst, 60, 3, want);
    assert!(prober.parse(&good, false).is_ok());
}

#[test]
fn test_parse_unexpected_icmp_type() {
    let prober = test_prober();
    // An echo reply (type 0) is not interpreted.
    let frame = envelope([9, 9, 9, 9], 0, 0, [2, 2, 2, 2], 60, 3, 100);
    assert!(matches!(prober.parse(&frame, true), Err(Error::UnexpectedIcmpType(0, 0))));
    // Destination Unreachable with a code outside 1..=3 is not interpreted.
    let frame = envelope([9, 9, 9, 9], 3, 0, [2, 2, 2, 2], 60, 3, 100);
    assert!(matches!(prober.parse(&frame, true), Err(Error::UnexpectedIcmpType(3, 0))));
}

#[test]
fn test_parse_invalid_distance() {
    let prober = test_prober();
    // Destination Unreachable whose embedded initial TTL (4) is smaller than
    // the remaining inner TTL (9).
    let frame = envelope([9, 9, 9, 9], 3, 1, [2, 2, 2, 2], 9, 4, 100);
    assert!(matches!(prober.parse(&frame, true), Err(Error::InvalidDistance(4, 9))));
}

#[test]
fn test_ip_checksum_value() {
    // Internet checksum of 1.2.3.4: !(0x0102 + 0x0304) = 0xfbf9.
    let a = Ipv4Address::from_octets(1, 2, 3, 4);
    assert_eq!(ip_checksum(a, 0), 0xfbf9);
    assert_eq!(ip_checksum(a, 7), 0xfc00);
    // A carry out of 16 bits folds back in: 255.255.0.1 sums to 0x10000,
    // folded 0x0001, complemented 0xfffe.
    let b = Ipv4Address::from_octets(255, 255, 0, 1);
    assert_eq!(ip_checksum(b, 0), 0xfffe);
}
