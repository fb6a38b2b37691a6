use doubletrace::addr::Ipv4Address;
use doubletrace::prober::{ProbeDebugResult, ProbeResult};
use doubletrace::topo::{
    graph_contains_edge, graph_contains_node, graph_edge_weight, sort_by_distance, Topo,
};

fn result(dst: Ipv4Address, responder: Ipv4Address, distance: u8) -> ProbeResult {
    ProbeResult {
        destination: dst,
        responder,
        distance,
        from_destination: false,
        debug: ProbeDebugResult { rtt: 0 },
    }
}

#[test]
fn test_topo_edges_and_gap() {
    // Results for one destination at distances 3, 5 and 14: the local host
    // links to the first hop with weight 3, the first to the second with
    // weight 2, and the 14 - 5 = 9 > 8 gap is skipped as implausible.
    let local = Ipv4Address::from_octets(192, 168, 1, 10);
    let dst = Ipv4Address::from_octets(10, 0, 0, 1);
    let ra = Ipv4Address::from_octets(1, 1, 1, 1);
    let rb = Ipv4Address::from_octets(2, 2, 2, 2);
    let rc = Ipv4Address::from_octets(3, 3, 3, 3);
    let mut topo = Topo::new(local);
    // Out of order on purpose: the assembler sorts by distance.
    topo.ingest(result(dst, rb, 5));
    topo.ingest(result(dst, ra, 3));
    topo.ingest(result(dst, rc, 14));
    let g = topo.finish();
    assert!(graph_contains_node(&g, local.bits));
    assert!(graph_contains_edge(&g, local.bits, ra.bits));
    assert_eq!(graph_edge_weight(&g, local.bits, ra.bits), Some(3));
    assert!(graph_contains_edge(&g, ra.bits, rb.bits));
    assert_eq!(graph_edge_weight(&g, rb.bits, ra.bits), Some(2));
    assert!(!graph_contains_edge(&g, rb.bits, rc.bits));
    assert!(!graph_contains_node(&g, rc.bits));
}

#[test]
fn test_topo_self_loop_omitted() {
    // The same responder at two distances gives no self-loop edge.
    let local = Ipv4Address::from_octets(192, 168, 1, 10);
    let dst = Ipv4Address::from_octets(10, 0, 0, 1);
    let ra = Ipv4Address::from_octets(1, 1, 1, 1);
    let mut topo = Topo::new(local);
    topo.ingest(result(dst, ra, 2));
    topo.ingest(result(dst, ra, 4));
    let g = topo.finish();
    assert!(graph_contains_edge(&g, local.bits, ra.bits));
    assert!(!graph_contains_edge(&g, ra.bits, ra.bits));
}

#[test]
fn test_topo_buckets_per_destination() {
    // Results are grouped by destination: two destinations sharing a hop
    // each contribute their own chain from the local host.
    let local = Ipv4Address::from_octets(192, 168, 1, 10);
    let d1 = Ipv4Address::from_octets(10, 0, 0, 1);
    let d2 = Ipv4Address::from_octets(10, 0, 0, 99);
    let shared = Ipv4Address::from_octets(1, 1, 1, 1);
    let only2 = Ipv4Address::from_octets(2, 2, 2, 2);
    let mut topo = Topo::new(local);
    topo.ingest(result(d1, shared, 1));
    topo.ingest(result(d2, shared, 1));
    topo.ingest(result(d2, only2, 3));
    let g = topo.finish();
    assert_eq!(graph_edge_weight(&g, local.bits, shared.bits), Some(1));
    assert_eq!(graph_edge_weight(&g, shared.bits, only2.bits), Some(2));
    assert!(!graph_contains_edge(&g, local.bits, only2.bits));
}

#[test]
fn test_sort_by_distance_stable() {
    let dst = Ipv4Address::from_octets(10, 0, 0, 1);
    let ra = Ipv4Address::from_octets(1, 1, 1, 1);
    let rb = Ipv4Address::from_octets(2, 2, 2, 2);
    let rc = Ipv4Address::from_octets(3, 3, 3, 3);
    let sorted = sort_by_distance(vec![
        result(dst, ra, 9),
        result(dst, rb, 2),
        result(dst, rc, 9),
    ]);
    let order: Vec<(u32, u8)> = sorted.iter().map(|r| (r.responder.bits, r.distance)).collect();
    // Ascending by distance; equal distances keep their arrival order.
    assert_eq!(order, vec![(rb.bits, 2), (ra.bits, 9), (rc.bits, 9)]);
}
