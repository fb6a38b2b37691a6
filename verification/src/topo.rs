//! The topology assembler: buffers probe results per destination and, when a
//! destination is complete, sorts its results by distance and emits the hop
//! edges into an undirected graph keyed by responder address.

use vstd::prelude::*;
use crate::addr::Ipv4Address;
use crate::prober::{ProbeDebugResult, ProbeResult};

verus! {

/// petgraph's hash-backed graph, opaque to the verifier; what it holds is
/// tracked through `graph_nodes` and `graph_edges`.
#[verifier::external_type_specification]
#[verifier::external_body]
#[verifier::reject_recursive_types(N)]
#[verifier::reject_recursive_types(E)]
#[verifier::reject_recursive_types(Ty)]
#[verifier::reject_recursive_types(S)]
pub struct ExGraphMap<N, E, Ty, S: std::hash::BuildHasher>(
    petgraph::graphmap::GraphMap<N, E, Ty, S>,
);

/// petgraph's marker type for undirected graphs.
#[verifier::external_type_specification]
#[verifier::external_body]
pub struct ExUndirected(petgraph::Undirected);

/// The discovered topology: an undirected graph over IPv4 addresses (as
/// 32-bit values) whose edge weights are hop-distance deltas.
pub type TopoGraph = petgraph::graphmap::GraphMap<
    u32,
    u8,
    petgraph::Undirected,
    std::collections::hash_map::RandomState,
>;

/// The nodes a topology graph holds.
pub uninterp spec fn graph_nodes(g: TopoGraph) -> Set<u32>;

/// The edges a topology graph holds: a weight for each unordered pair,
/// keyed by the pair in ascending order.
pub uninterp spec fn graph_edges(g: TopoGraph) -> Map<(u32, u32), u8>;

/// The canonical key of an undirected edge: its endpoints in ascending order.
pub open spec fn edge_key(a: u32, b: u32) -> (u32, u32) {
    if a <= b {
        (a, b)
    } else {
        (b, a)
    }
}

/// Relies on petgraph's GraphMap::new: a fresh graph has no nodes and no
/// edges.
#[verifier::external_body]
pub fn graph_new() -> (r: TopoGraph)
    ensures
        graph_nodes(r) == Set::<u32>::empty(),
        (graph_edges(r) == Map::<(u32, u32), u8>::empty()),
{
    petgraph::graphmap::GraphMap::new()
}

/// Relies on petgraph's GraphMap::add_node: inserts the node (a no-op when
/// present) and touches no edge.
#[verifier::external_body]
pub fn graph_add_node(g: &mut TopoGraph, n: u32)
    ensures
        graph_nodes(*final(g)) == graph_nodes(*old(g)).insert(n),
        graph_edges(*final(g)) == graph_edges(*old(g)),
{
    g.add_node(n);
}

/// Relies on petgraph's GraphMap::add_edge on an undirected graph: inserts
/// both endpoints, and stores the weight under the endpoint pair in
/// ascending order (its edge_key), replacing any earlier weight.
#[verifier::external_body]
pub fn graph_add_edge(g: &mut TopoGraph, a: u32, b: u32, w: u8)
    ensures
        graph_nodes(*final(g)) == graph_nodes(*old(g)).insert(a).insert(b),
        graph_edges(*final(g)) == graph_edges(*old(g)).insert(edge_key(a, b), w),
{
    g.add_edge(a, b, w);
}

/// Relies on petgraph's GraphMap::contains_node.
#[verifier::external_body]
pub fn graph_contains_node(g: &TopoGraph, n: u32) -> (r: bool)
    ensures
        r == graph_nodes(*g).contains(n),
{
    g.contains_node(n)
}

/// Relies on petgraph's GraphMap::contains_edge: looks the unordered pair up.
#[verifier::external_body]
pub fn graph_contains_edge(g: &TopoGraph, a: u32, b: u32) -> (r: bool)
    ensures
        r == graph_edges(*g).dom().contains(edge_key(a, b)),
{
    g.contains_edge(a, b)
}

/// Relies on petgraph's GraphMap::edge_weight: the weight stored under the
/// unordered pair, if any.
#[verifier::external_body]
pub fn graph_edge_weight(g: &TopoGraph, a: u32, b: u32) -> (r: Option<u8>)
    ensures
        r matches Some(w) ==> graph_edges(*g).dom().contains(edge_key(a, b)) && graph_edges(
            *g,
        )[edge_key(a, b)] == w,
        r is None ==> !graph_edges(*g).dom().contains(edge_key(a, b)),
{
    g.edge_weight(a, b).copied()
}

/// `x` inserted into a distance-sorted sequence, before the first element
/// whose distance is at least as large (so that sorting stays stable).
pub open spec fn spec_insert_sorted(x: ProbeResult, s: Seq<ProbeResult>) -> Seq<ProbeResult>
    decreases s.len(),
{
    if s.len() == 0 {
        seq![x]
    } else if x.distance <= s[0].distance {
        seq![x] + s
    } else {
        seq![s[0]] + spec_insert_sorted(x, s.skip(1))
    }
}

/// Stable sort by ascending distance.
pub open spec fn spec_sort_by_distance(s: Seq<ProbeResult>) -> Seq<ProbeResult>
    decreases s.len(),
{
    if s.len() == 0 {
        Seq::empty()
    } else {
        spec_insert_sorted(s[0], spec_sort_by_distance(s.skip(1)))
    }
}

/// Adjacent elements are in ascending distance order.
pub open spec fn sorted_by_distance(s: Seq<ProbeResult>) -> bool {
    forall|i: int| 0 <= i < s.len() - 1 ==> #[trigger] s[i].distance <= s[i + 1].distance
}

proof fn lemma_insert_sorted_sorted(x: ProbeResult, s: Seq<ProbeResult>)
    requires
        sorted_by_distance(s),
    ensures
        sorted_by_distance(spec_insert_sorted(x, s)),
        spec_insert_sorted(x, s).len() == s.len() + 1,
        spec_insert_sorted(x, s)[0] == x || (s.len() > 0 && spec_insert_sorted(x, s)[0] == s[0]),
    decreases s.len(),
{
    let r = spec_insert_sorted(x, s);
    if s.len() == 0 {
    } else if x.distance <= s[0].distance {
        assert forall|i: int| 0 <= i < r.len() - 1 implies #[trigger] r[i].distance <= r[i + 1].distance by {
            if i > 0 {
                assert(r[i] == s[i - 1] && r[i + 1] == s[i]);
            }
        }
    } else {
        assert(sorted_by_distance(s.skip(1))) by {
            assert(forall|i: int|
                0 <= i < s.skip(1).len() - 1 ==> #[trigger] s.skip(1)[i] == s[i + 1] && s.skip(1)[i
                    + 1] == s[i + 2]);
        }
        lemma_insert_sorted_sorted(x, s.skip(1));
        let inner = spec_insert_sorted(x, s.skip(1));
        assert forall|i: int| 0 <= i < r.len() - 1 implies #[trigger] r[i].distance <= r[i + 1].distance by {
            if i == 0 {
                assert(r[1] == inner[0]);
                if s.len() > 1 {
                    assert(inner[0] == x || inner[0] == s.skip(1)[0]);
                    assert(s.skip(1)[0] == s[1]);
                }
            } else {
                assert(r[i] == inner[i - 1] && r[i + 1] == inner[i]);
            }
        }
    }
}

proof fn lemma_sort_sorted(s: Seq<ProbeResult>)
    ensures
        sorted_by_distance(spec_sort_by_distance(s)),
        spec_sort_by_distance(s).len() == s.len(),
    decreases s.len(),
{
    if s.len() > 0 {
        lemma_sort_sorted(s.skip(1));
        lemma_insert_sorted_sorted(s[0], spec_sort_by_distance(s.skip(1)));
    }
}

/// Inserts `x` into an already distance-sorted vector, keeping the order.
fn insert_by_distance(x: ProbeResult, s: Vec<ProbeResult>) -> (r: Vec<ProbeResult>)
    ensures
        r@ == spec_insert_sorted(x, s@),
    decreases s@.len(),
{
    if s.len() == 0 {
        let mut r = s;
        r.push(x);
        proof {
            assert(r@ =~= seq![x]);
        }
        r
    } else if x.distance <= s[0].distance {
        let ghost s0 = s@;
        let mut r = s;
        r.insert(0, x);
        proof {
            assert(r@ =~= seq![x] + s0);
        }
        r
    } else {
        let ghost s0 = s@;
        let mut s2 = s;
        let first = s2.remove(0);
        proof {
            assert(s2@ =~= s0.skip(1));
        }
        let mut r = insert_by_distance(x, s2);
        r.insert(0, first);
        proof {
            assert(r@ =~= seq![first] + spec_insert_sorted(x, s0.skip(1)));
        }
        r
    }
}

/// Sorts probe results by ascending distance, stably.
pub fn sort_by_distance(s: Vec<ProbeResult>) -> (r: Vec<ProbeResult>)
    ensures
        r@ == spec_sort_by_distance(s@),
    decreases s@.len(),
{
    if s.len() == 0 {
        s
    } else {
        let ghost s0 = s@;
        let mut s2 = s;
        let first = s2.remove(0);
        proof {
            assert(s2@ =~= s0.skip(1));
        }
        let sorted = sort_by_distance(s2);
        insert_by_distance(first, sorted)
    }
}

/// Walking a distance-sorted run of results after `prev`: each consecutive
/// pair adds the later responder and the edge between the two, weighted by
/// their distance delta — except that an implausible gap (delta over 8) or a
/// self-loop adds nothing.
pub open spec fn spec_insert_hops(
    nodes: Set<u32>,
    edges: Map<(u32, u32), u8>,
    prev: ProbeResult,
    rest: Seq<ProbeResult>,
) -> (Set<u32>, Map<(u32, u32), u8>)
    decreases rest.len(),
{
    if rest.len() == 0 {
        (nodes, edges)
    } else {
        let b = rest[0];
        let d = b.distance - prev.distance;
        if d > 8 || b.responder == prev.responder {
            spec_insert_hops(nodes, edges, b, rest.skip(1))
        } else {
            spec_insert_hops(
                nodes.insert(prev.responder.bits).insert(b.responder.bits),
                edges.insert(edge_key(prev.responder.bits, b.responder.bits), d as u8),
                b,
                rest.skip(1),
            )
        }
    }
}

/// The synthetic result standing for the probing host itself, at distance 0.
pub open spec fn spec_local_result(local: Ipv4Address) -> ProbeResult {
    ProbeResult {
        destination: local,
        responder: local,
        distance: 0,
        from_destination: true,
        debug: ProbeDebugResult { rtt: 0 },
    }
}

/// Sorts one destination's results and emits its hop edges into the graph,
/// starting from the local host at distance 0.
pub fn process_bucket(graph: &mut TopoGraph, local: Ipv4Address, results: Vec<ProbeResult>)
    ensures
        ({
            let folded = spec_insert_hops(
                graph_nodes(*old(graph)),
                graph_edges(*old(graph)),
                spec_local_result(local),
                spec_sort_by_distance(results@),
            );
            graph_nodes(*final(graph)) == folded.0 && graph_edges(*final(graph)) == folded.1
        }),
{
    let ghost orig_nodes = graph_nodes(*graph);
    let ghost orig_edges = graph_edges(*graph);
    let ghost lr = spec_local_result(local);
    proof {
        lemma_sort_sorted(results@);
    }
    let sorted = sort_by_distance(results);
    let mut prev = ProbeResult {
        destination: local,
        responder: local,
        distance: 0,
        from_destination: true,
        debug: ProbeDebugResult { rtt: 0 },
    };
    let mut i: usize = 0;
    proof {
        assert(prev == lr);
        assert(sorted@.skip(0) =~= sorted@);
    }
    while i < sorted.len()
        invariant
            lr == spec_local_result(local),
            sorted_by_distance(sorted@),
            i <= sorted@.len(),
            if i == 0 {
                prev == lr
            } else {
                prev == sorted@[i - 1]
            },
            spec_insert_hops(orig_nodes, orig_edges, lr, sorted@) == spec_insert_hops(
                graph_nodes(*graph),
                graph_edges(*graph),
                prev,
                sorted@.skip(i as int),
            ),
        decreases sorted@.len() - i,
    {
        let b = sorted[i];
        proof {
            assert(sorted@.skip(i as int)[0] == b);
            assert(sorted@.skip(i as int).skip(1) =~= sorted@.skip(i as int + 1));
            if i > 0 {
                assert(sorted@[i - 1].distance <= sorted@[i as int].distance);
            }
            assert(prev.distance <= b.distance);
        }
        let d = b.distance - prev.distance;
        if d > 8 || b.responder.bits == prev.responder.bits {
            proof {
                assert((b.responder == prev.responder) == (b.responder.bits
                    == prev.responder.bits));
            }
        } else {
            graph_add_edge(graph, prev.responder.bits, b.responder.bits, d);
        }
        prev = b;
        i += 1;
    }
    proof {
        assert(sorted@.skip(sorted@.len() as int) =~= Seq::<ProbeResult>::empty());
    }
}

/// A request to the graph assembler: one more probe result, or the order to
/// flush and stop.
pub enum TopoReq {
    Result(ProbeResult),
    Stop,
}

/// The per-destination buckets (in arrival order of their first result) and
/// the graph under construction.
pub struct Topo {
    pub buf: Vec<(u32, Vec<ProbeResult>)>,
    pub graph: TopoGraph,
    pub local: Ipv4Address,
}

/// The buckets of a buffer, with each bucket's results as a sequence.
pub open spec fn buckets_of(s: Seq<(u32, Vec<ProbeResult>)>) -> Seq<(u32, Seq<ProbeResult>)> {
    s.map_values(|p: (u32, Vec<ProbeResult>)| (p.0, p.1@))
}

/// Flushing every bucket, in buffer order.
pub open spec fn spec_finish_hops(
    nodes: Set<u32>,
    edges: Map<(u32, u32), u8>,
    lr: ProbeResult,
    bks: Seq<(u32, Seq<ProbeResult>)>,
) -> (Set<u32>, Map<(u32, u32), u8>)
    decreases bks.len(),
{
    if bks.len() == 0 {
        (nodes, edges)
    } else {
        let step = spec_insert_hops(nodes, edges, lr, spec_sort_by_distance(bks[0].1));
        spec_finish_hops(step.0, step.1, lr, bks.skip(1))
    }
}

impl Topo {
    pub open spec fn buckets(self) -> Seq<(u32, Seq<ProbeResult>)> {
        buckets_of(self.buf@)
    }

    /// Each destination has at most one bucket.
    pub open spec fn wf(self) -> bool {
        forall|i: int, j: int|
            0 <= i < j < self.buf@.len() ==> self.buf@[i].0 != self.buf@[j].0
    }

    /// A fresh assembler: no buffered results, and a graph holding only the
    /// local host.
    pub fn new(local: Ipv4Address) -> (r: Topo)
        ensures
            r.wf(),
            (r.buckets() == Seq::<(u32, Seq<ProbeResult>)>::empty()),
            graph_nodes(r.graph) == Set::<u32>::empty().insert(local.bits),
            (graph_edges(r.graph) == Map::<(u32, u32), u8>::empty()),
            r.local == local,
    {
        let mut graph = graph_new();
        graph_add_node(&mut graph, local.bits);
        let r = Topo { buf: Vec::new(), graph, local };
        proof {
            assert(r.buckets() =~= Seq::<(u32, Seq<ProbeResult>)>::empty());
        }
        r
    }

    /// Buffers one result under its destination: appended to the
    /// destination's bucket if one exists, else opening a new bucket at the
    /// end.
    pub fn ingest(&mut self, result: ProbeResult)
        requires
            old(self).wf(),
        ensures
            final(self).wf(),
            final(self).graph == old(self).graph,
            final(self).local == old(self).local,
            ({
                let key = result.destination.bits;
                let bks = old(self).buckets();
                if exists|j: int| 0 <= j < bks.len() && bks[j].0 == key {
                    &&& final(self).buckets().len() == bks.len()
                    &&& forall|i: int|
                        0 <= i < bks.len() ==> final(self).buckets()[i] == (if bks[i].0 == key {
                            (key, bks[i].1.push(result))
                        } else {
                            bks[i]
                        })
                } else {
                    final(self).buckets() == bks.push((key, seq![result]))
                }
            }),
    {
        let key = result.destination.bits;
        let ghost bks0 = old(self).buckets();
        let mut i: usize = 0;
        while i < self.buf.len()
            invariant
                *self == *old(self),
                old(self).wf(),
                bks0 == old(self).buckets(),
                i <= self.buf@.len(),
                forall|k: int| 0 <= k < i ==> self.buf@[k].0 != key,
                key == result.destination.bits,
            decreases self.buf@.len() - i,
        {
            if self.buf[i].0 == key {
                let mut pair = self.buf.remove(i);
                proof {
                    assert(pair == old(self).buf@[i as int]);
                }
                pair.1.push(result);
                self.buf.insert(i, pair);
                proof {
                    assert(bks0.len() == old(self).buf@.len());
                    let ghost oldpair = old(self).buf@[i as int];
                    assert(bks0[i as int] == (oldpair.0, oldpair.1@));
                    assert(0 <= i < bks0.len() && bks0[i as int].0 == key);
                    assert(self.buf@.len() == old(self).buf@.len());
                    assert(self.buckets().len() == bks0.len());
                    assert(self.buf@[i as int].1@ == old(self).buf@[i as int].1@.push(result));
                    assert(self.buckets()[i as int] == (key, bks0[i as int].1.push(result)));
                    assert forall|m: int| 0 <= m < bks0.len() implies self.buckets()[m] == (
                    if bks0[m].0 == key {
                        (key, bks0[m].1.push(result))
                    } else {
                        bks0[m]
                    }) by {
                        if m != i {
                            assert(self.buf@[m] == old(self).buf@[m]);
                            assert(bks0[m] == (old(self).buf@[m].0, old(self).buf@[m].1@));
                            assert(bks0[m].0 != key);
                        }
                    }
                }
                return ;
            }
            i += 1;
        }
        let mut bucket: Vec<ProbeResult> = Vec::new();
        bucket.push(result);
        proof {
            assert(bucket@ =~= seq![result]);
        }
        self.buf.push((key, bucket));
        proof {
            assert(self.buckets() =~= bks0.push((key, seq![result])));
        }
    }

    /// Flushes every buffered destination into the graph and hands the graph
    /// over.
    pub fn finish(self) -> (g: TopoGraph)
        ensures
            ({
                let folded = spec_finish_hops(
                    graph_nodes(self.graph),
                    graph_edges(self.graph),
                    spec_local_result(self.local),
                    self.buckets(),
                );
                graph_nodes(g) == folded.0 && graph_edges(g) == folded.1
            }),
    {
        let Topo { mut buf, mut graph, local } = self;
        let ghost orig_nodes = graph_nodes(graph);
        let ghost orig_edges = graph_edges(graph);
        let ghost bks0 = buckets_of(buf@);
        let ghost lr = spec_local_result(local);
        while buf.len() > 0
            invariant
                spec_finish_hops(orig_nodes, orig_edges, lr, bks0) == spec_finish_hops(
                    graph_nodes(graph),
                    graph_edges(graph),
                    lr,
                    buckets_of(buf@),
                ),
                lr == spec_local_result(local),
            decreases buf@.len(),
        {
            let ghost before = buckets_of(buf@);
            let pair = buf.remove(0);
            proof {
                assert(buckets_of(buf@) =~= before.skip(1));
                assert(before[0] == (pair.0, pair.1@));
            }
            process_bucket(&mut graph, local, pair.1);
        }
        proof {
            assert(buckets_of(buf@) =~= Seq::<(u32, Seq<ProbeResult>)>::empty());
        }
        graph
    }
}

} // verus!
