use std::collections::HashSet;

use doubletrace::addr::Ipv4Address;
use doubletrace::error::Error;
use doubletrace::opt::{get_test_opt, Targets};
use doubletrace::prober::{ProbeDebugResult, ProbeResult};
use doubletrace::tracerouter::{addr_to_key, generate_targets, Tracerouter};

fn result(dst: Ipv4Address, responder: Ipv4Address, distance: u8, from_destination: bool) -> ProbeResult {
    ProbeResult { destination: dst, responder, distance, from_destination, debug: ProbeDebugResult { rtt: 0 } }
}

#[test]
fn test_generation() {
    let opt = get_test_opt();
    let tr = Tracerouter::new(opt.clone()).unwrap();
    if let Targets::Net(net) = opt.targets {
        assert_eq!(tr.targets.len(), 1 << (32 - net.prefix - opt.grain));
        let mut i = 0;
        while i < tr.targets.len() {
            assert!(net.contains(tr.targets.dcb_at(i).addr));
            i += 1;
        }
    } else {
        panic!();
    }
}

#[test]
fn test_generation_bad_grain() {
    let mut opt = get_test_opt();
    // A /24 network leaves room for a grain of at most 8.
    opt.grain = 9;
    assert!(matches!(Tracerouter::new(opt), Err(Error::BadGrainOrNet(9, _))));
}

#[test]
fn test_generation_from_list() {
    let mut opt = get_test_opt();
    let a = Ipv4Address::from_octets(1, 2, 3, 4);
    let b = Ipv4Address::from_octets(8, 8, 8, 8);
    opt.targets = Targets::List(vec![a, b]);
    let t = generate_targets(&opt).unwrap();
    assert_eq!(t.len(), 2);
    let ka = addr_to_key(a, opt.grain);
    let kb = addr_to_key(b, opt.grain);
    let ia = t.index_of(ka).unwrap();
    let ib = t.index_of(kb).unwrap();
    assert_eq!(t.dcb_at(ia).addr, a);
    assert_eq!(t.dcb_at(ib).addr, b);
    assert_eq!(t.dcb_at(ia).initial_ttl(), opt.split_ttl);
}

#[test]
fn test_addr_to_key_values() {
    // The key is the address value shifted right by the grain.
    let a = Ipv4Address::from_octets(1, 2, 3, 4);
    assert_eq!(addr_to_key(a, 8), 0x010203);
    assert_eq!(addr_to_key(a, 0), 0x01020304);
    assert_eq!(addr_to_key(a, 32), 0);
    // Monotone in the address value.
    let b = Ipv4Address::from_octets(1, 2, 4, 0);
    assert!(addr_to_key(a, 8) <= addr_to_key(b, 8));
    // Two addresses of one /24 share the key at grain 8.
    let c = Ipv4Address::from_octets(1, 2, 3, 200);
    assert_eq!(addr_to_key(a, 8), addr_to_key(c, 8));
}

#[test]
fn test_preprobing_callback_splits_accurately() {
    // A pre-probe reply from the destination re-centers its block and marks
    // it accurate.
    let mut opt = get_test_opt();
    let dst = Ipv4Address::from_octets(1, 2, 3, 4);
    opt.targets = Targets::List(vec![dst]);
    let mut tr = Tracerouter::new(opt.clone()).unwrap();
    tr.preprobing_callback(result(dst, dst, 9, true));
    let i = tr.targets.index_of(addr_to_key(dst, opt.grain)).unwrap();
    let dcb = tr.targets.dcb_at(i);
    assert_eq!(dcb.initial_ttl, 9);
    assert!(dcb.accurate_distance);
    assert_eq!(dcb.next_backward_hop, 9);
    assert_eq!(dcb.next_forward_hop, 10);
    assert_eq!(dcb.forward_horizon, 9);
}

#[test]
fn test_preprobing_callback_proximity() {
    // Neighbor keys within the span get the distance as a revisable estimate.
    let mut opt = get_test_opt();
    let near = Ipv4Address::from_octets(1, 2, 4, 9);  // key of 1.2.3.x plus 1
    let far = Ipv4Address::from_octets(1, 2, 99, 9);  // far outside the span
    let dst = Ipv4Address::from_octets(1, 2, 3, 4);
    opt.targets = Targets::List(vec![dst, near, far]);
    let mut tr = Tracerouter::new(opt.clone()).unwrap();
    tr.preprobing_callback(result(dst, dst, 9, true));
    let i_near = tr.targets.index_of(addr_to_key(near, opt.grain)).unwrap();
    let near_dcb = tr.targets.dcb_at(i_near);
    assert_eq!(near_dcb.initial_ttl, 9);
    assert!(!near_dcb.accurate_distance);
    let i_far = tr.targets.index_of(addr_to_key(far, opt.grain)).unwrap();
    let far_dcb = tr.targets.dcb_at(i_far);
    assert_eq!(far_dcb.initial_ttl, opt.split_ttl);
    // A reply from the path does nothing.
    let mut tr2 = Tracerouter::new(opt.clone()).unwrap();
    tr2.preprobing_callback(result(dst, dst, 9, false));
    let j = tr2.targets.index_of(addr_to_key(dst, opt.grain)).unwrap();
    assert_eq!(tr2.targets.dcb_at(j).initial_ttl, opt.split_ttl);
}

#[test]
fn test_probing_callback_backward_stop_on_second_sighting() {
    // Two destinations report the same responder at or before their split
    // TTL: the second sighting stops backward probing for that destination.
    let mut opt = get_test_opt();
    let d1 = Ipv4Address::from_octets(1, 2, 3, 4);
    let d2 = Ipv4Address::from_octets(1, 9, 3, 4);
    let hop = Ipv4Address::from_octets(10, 0, 0, 1);
    opt.targets = Targets::List(vec![d1, d2]);
    let mut tr = Tracerouter::new(opt.clone()).unwrap();
    let mut backward = HashSet::new();
    let mut forward = HashSet::new();
    tr.probing_callback(&mut backward, &mut forward, &result(d1, hop, 3, false));
    assert!(backward.contains(&hop.bits));
    let i1 = tr.targets.index_of(addr_to_key(d1, opt.grain)).unwrap();
    assert_ne!(tr.targets.dcb_at(i1).next_backward_hop, 0);
    tr.probing_callback(&mut backward, &mut forward, &result(d2, hop, 3, false));
    let i2 = tr.targets.index_of(addr_to_key(d2, opt.grain)).unwrap();
    assert_eq!(tr.targets.dcb_at(i2).next_backward_hop, 0);
}

#[test]
fn test_probing_callback_forward_horizon_extension() {
    // A path reply at a distance no greater than the last forward task
    // raises the horizon to min(distance + gap, max_ttl).
    let mut opt = get_test_opt();
    let dst = Ipv4Address::from_octets(1, 2, 3, 4);
    let hop = Ipv4Address::from_octets(10, 0, 0, 2);
    opt.targets = Targets::List(vec![dst]);
    let mut tr = Tracerouter::new(opt.clone()).unwrap();
    let i = tr.targets.index_of(addr_to_key(dst, opt.grain)).unwrap();
    let mut backward = HashSet::new();
    let mut forward = HashSet::new();
    // A fresh block estimates 16: the last forward task handed out is 16.
    // A reply from distance 17 is past the estimate: it is filed in the
    // forward discovery set and does not extend the horizon.
    tr.probing_callback(&mut backward, &mut forward, &result(dst, hop, 17, false));
    assert!(forward.contains(&hop.bits));
    assert_eq!(tr.targets.dcb_at(i).forward_horizon, 16);
    // A reply at distance 16 (the last forward task) extends the horizon to
    // min(16 + gap, max_ttl) = 21.
    tr.probing_callback(&mut backward, &mut forward, &result(dst, hop, 16, false));
    assert_eq!(tr.targets.dcb_at(i).forward_horizon, 21);
    // A reply near the cap extends only up to max_ttl = 32.
    let hop2 = Ipv4Address::from_octets(10, 0, 0, 3);
    tr.probing_callback(&mut backward, &mut forward, &result(dst, hop2, 16, false));
    let mut pulled = Vec::new();
    loop {
        let mut d = tr.targets.dcb_at(i);
        match d.pull_forward_task() {
            Some(t) => pulled.push(t),
            None => break,
        }
        // Write the block back so the next pull advances.
        tr.targets.insert(addr_to_key(dst, opt.grain), d);
    }
    assert_eq!(pulled, (17..=21).collect::<Vec<u8>>());
}

#[test]
fn test_probing_callback_destination_reply() {
    // A reply from the destination stops forward probing and files the
    // responder in the backward stop set.
    let mut opt = get_test_opt();
    let dst = Ipv4Address::from_octets(1, 2, 3, 4);
    opt.targets = Targets::List(vec![dst]);
    let mut tr = Tracerouter::new(opt.clone()).unwrap();
    let mut backward = HashSet::new();
    let mut forward = HashSet::new();
    tr.probing_callback(&mut backward, &mut forward, &result(dst, dst, 7, true));
    assert!(backward.contains(&dst.bits));
    let i = tr.targets.index_of(addr_to_key(dst, opt.grain)).unwrap();
    let dcb = tr.targets.dcb_at(i);
    assert_eq!(dcb.forward_horizon, 0);
    // With router_only, destinations stay out of the backward stop set.
    let mut opt2 = get_test_opt();
    opt2.targets = Targets::List(vec![dst]);
    opt2.router_only = true;
    let mut tr2 = Tracerouter::new(opt2).unwrap();
    let mut b2 = HashSet::new();
    let mut f2 = HashSet::new();
    tr2.probing_callback(&mut b2, &mut f2, &result(dst, dst, 7, true));
    assert!(!b2.contains(&dst.bits));
}

#[test]
fn test_probing_round_pulls_and_worklist() {
    let mut opt = get_test_opt();
    let a = Ipv4Address::from_octets(1, 2, 3, 4);
    let b = Ipv4Address::from_octets(8, 8, 8, 8);
    opt.targets = Targets::List(vec![a, b]);
    opt.split_ttl = 1;
    let mut tr = Tracerouter::new(opt.clone()).unwrap();
    let keys = vec![addr_to_key(a, opt.grain), addr_to_key(b, opt.grain)];
    // Round 1: each destination hands out its one backward task (TTL 1);
    // forward pulls fail while the horizon equals the split TTL.
    let (probes, kept) = tr.probing_round(&keys);
    assert_eq!(probes, vec![(a, 1), (b, 1)]);
    assert_eq!(kept, keys);
    // Round 2: nothing left; the work list empties.
    let (probes, kept) = tr.probing_round(&keys);
    assert_eq!(probes, vec![]);
    assert_eq!(kept, vec![]);
}

#[test]
fn test_preprobe_units() {
    let mut opt = get_test_opt();
    let a = Ipv4Address::from_octets(1, 2, 3, 4);
    let b = Ipv4Address::from_octets(8, 8, 8, 8);
    opt.targets = Targets::List(vec![a, b]);
    let tr = Tracerouter::new(opt.clone()).unwrap();
    let units = tr.preprobe_units();
    assert_eq!(units, vec![(a, 32), (b, 32)]);
}

#[test]
fn test_stop_flag() {
    let opt = get_test_opt();
    let mut tr = Tracerouter::new(opt).unwrap();
    assert!(!tr.stopped());
    tr.stop();
    assert!(tr.stopped());
}

#[test]
fn test_get_test_opt_defaults() {
    let opt = get_test_opt();
    assert_eq!(opt.preprobing_ttl, 32);
    assert_eq!(opt.proximity_span, 5);
    assert_eq!(opt.split_ttl, 16);
    assert_eq!(opt.max_ttl, 32);
    assert_eq!(opt.gap, 5);
    assert_eq!(opt.probing_rate, 400000);
    assert_eq!(opt.dst_port, 33434);
    assert_eq!(opt.seed, 114514);
    assert_eq!(opt.grain, 8);
    assert_eq!(opt.payload_message, b"How are you?".to_vec());
}
