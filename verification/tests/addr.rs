use doubletrace::addr::{GlobalIpv4Ext, Ipv4Address, Ipv4Net};
use doubletrace::network::{rate_limit_step, round_pace_ms, send_queue_capacity};

fn ip(o0: u8, o1: u8, o2: u8, o3: u8) -> Ipv4Address {
    Ipv4Address::from_octets(o0, o1, o2, o3)
}

#[test]
fn test_octets_round_trip() {
    let a = ip(59, 78, 173, 84);
    assert_eq!(a.bits, 0x3b4ead54);
    assert_eq!(a.octets(), (59, 78, 173, 84));
}

#[test]
fn test_is_bz_global() {
    // The two routable exceptions inside 192.0.0.0/24 are kept.
    assert!(ip(192, 0, 0, 9).is_bz_global());
    assert!(ip(192, 0, 0, 10).is_bz_global());
    assert!(!ip(192, 0, 0, 1).is_bz_global());
    // An ordinary public address is global.
    assert!(ip(8, 8, 8, 8).is_bz_global());
    // Private, loopback, link-local, broadcast, documentation.
    assert!(!ip(10, 1, 2, 3).is_bz_global());
    assert!(!ip(172, 16, 0, 1).is_bz_global());
    assert!(!ip(192, 168, 1, 1).is_bz_global());
    assert!(!ip(127, 0, 0, 1).is_bz_global());
    assert!(!ip(169, 254, 9, 9).is_bz_global());
    assert!(!ip(255, 255, 255, 255).is_bz_global());
    assert!(!ip(192, 0, 2, 7).is_bz_global());
    assert!(!ip(198, 51, 100, 7).is_bz_global());
    assert!(!ip(203, 0, 113, 7).is_bz_global());
    // Carrier-grade NAT, 240/4, benchmarking, 0/8.
    assert!(!ip(100, 64, 0, 1).is_bz_global());
    assert!(ip(100, 128, 0, 1).is_bz_global());
    assert!(!ip(240, 1, 2, 3).is_bz_global());
    assert!(!ip(198, 18, 0, 1).is_bz_global());
    assert!(!ip(198, 19, 0, 1).is_bz_global());
    assert!(!ip(0, 1, 2, 3).is_bz_global());
}

#[test]
fn test_net_network_and_contains() {
    // The network address masks the host bits of the given address.
    let net = Ipv4Net { addr: ip(192, 168, 1, 57), prefix: 24 };
    assert_eq!(net.network(), ip(192, 168, 1, 0).bits);
    assert!(net.contains(ip(192, 168, 1, 0)));
    assert!(net.contains(ip(192, 168, 1, 255)));
    assert!(!net.contains(ip(192, 168, 2, 0)));
    assert!(!net.contains(ip(192, 168, 0, 255)));
    // A /0 network contains everything.
    let all = Ipv4Net { addr: ip(1, 2, 3, 4), prefix: 0 };
    assert!(all.contains(ip(255, 255, 255, 255)));
    assert!(all.contains(ip(0, 0, 0, 0)));
}

#[test]
fn test_send_queue_capacity_clamp() {
    assert_eq!(send_queue_capacity(0), 1000);
    assert_eq!(send_queue_capacity(1000), 1000);
    assert_eq!(send_queue_capacity(123456), 123456);
    assert_eq!(send_queue_capacity(400000), 400000);
    assert_eq!(send_queue_capacity(u64::MAX), 400000);
}

#[test]
fn test_rate_limit_step() {
    // Only every 128th probe samples the clock.
    assert_eq!(rate_limit_step(5, 2000, 100), (false, 0));
    // A stale window restarts.
    assert_eq!(rate_limit_step(128, 1200, 100), (true, 0));
    // An over-budget window sleeps out the remainder of its second.
    assert_eq!(rate_limit_step(256, 300, 100), (false, 700));
    // Under budget: carry on.
    assert_eq!(rate_limit_step(128, 300, 1000), (false, 0));
}

#[test]
fn test_round_pace() {
    assert_eq!(round_pace_ms(0), 0);
    assert_eq!(round_pace_ms(10), 200);
    assert_eq!(round_pace_ms(50), 1000);
    assert_eq!(round_pace_ms(100000), 1000);
}
