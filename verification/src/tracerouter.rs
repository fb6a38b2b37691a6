//! The scheduler: target-set construction by subnet subsampling, the
//! pre-probe and main-probe callbacks that steer each destination's control
//! block, and the per-round task pulls.

use vstd::prelude::*;
use std::collections::HashMap;
use std::collections::HashSet;
use crate::addr::{GlobalIpv4Ext, Ipv4Address};
use crate::dcb::{
    spec_new_dcb, spec_pull_backward, spec_pull_forward, spec_set_forward_horizon,
    spec_stop_backward, spec_stop_forward, spec_last_forward_task, spec_update_split_ttl,
    DstCtrlBlock,
};
use crate::error::Error;
use crate::opt::{Opt, Targets};
use crate::prober::ProbeUnit;
use crate::prober::ProbeResult;
use crate::rng::{rng_below, seeded_std_rng};

verus! {

/// A destination's key: its address value with the low `grain` bits dropped.
pub type AddrKey = u64;

pub open spec fn spec_addr_to_key(addr: Ipv4Address, grain: u8) -> u64 {
    (addr.bits as u64) >> grain
}

/// The key a destination is filed under: one key stands for 2^grain
/// addresses.
pub fn addr_to_key(addr: Ipv4Address, grain: u8) -> (r: AddrKey)
    requires
        grain <= 32,
    ensures
        r == spec_addr_to_key(addr, grain),
{
    (addr.bits as u64) >> (grain as u64)
}

/// Law: `addr_to_key` is division by 2^grain — so it is monotone in the
/// address value, it loses exactly the low `grain` bits (the key bounds the
/// address within a 2^grain-sized window), and two addresses share a key
/// exactly when they agree above those bits.
#[verifier::rlimit(100)]
pub proof fn lemma_addr_to_key_grain(a: Ipv4Address, b: Ipv4Address, grain: u8)
    requires
        grain <= 32,
    ensures
        spec_addr_to_key(a, grain) == (a.bits as u64) / (1u64 << (grain as u64)),
        a.bits <= b.bits ==> spec_addr_to_key(a, grain) <= spec_addr_to_key(b, grain),
        spec_addr_to_key(a, grain) * (1u64 << (grain as u64)) <= a.bits < (spec_addr_to_key(
            a,
            grain,
        ) + 1) * (1u64 << (grain as u64)),
{
    let x = a.bits as u64;
    let y = b.bits as u64;
    let g = grain as u64;
    let p = vstd::arithmetic::power2::pow2(g as nat);
    vstd::bits::lemma_u64_pow2_no_overflow(g as nat);
    vstd::bits::lemma_u64_shl_is_mul(1u64, g);
    assert((1u64 << g) == p);
    vstd::bits::lemma_u64_shr_is_div(x, g);
    vstd::bits::lemma_u64_shr_is_div(y, g);
    vstd::arithmetic::power2::lemma_pow2_pos(g as nat);
    if x <= y {
        vstd::arithmetic::div_mod::lemma_div_is_ordered(x as int, y as int, p as int);
    }
    vstd::arithmetic::div_mod::lemma_fundamental_div_mod(x as int, p as int);
    vstd::arithmetic::div_mod::lemma_mod_bound(x as int, p as int);
    let q = (x >> g) as int;
    let pi = p as int;
    assert(q == x as int / pi);
    assert(x as int == pi * q + (x as int % pi));
    assert(q * pi <= (x as int)) by (nonlinear_arith)
        requires
            x as int == pi * q + (x as int % pi),
            0 <= x as int % pi,
    ;
    assert((x as int) < (q + 1) * pi) by (nonlinear_arith)
        requires
            x as int == pi * q + (x as int % pi),
            x as int % pi < pi,
    ;
    assert(spec_addr_to_key(a, grain) == q);
}

/// The target set: one control block per key. Blocks are stored densely and
/// found by key through a hash index.
pub struct DcbMap {
    pub keys: Vec<AddrKey>,
    pub dcbs: Vec<DstCtrlBlock>,
    pub index: HashMap<AddrKey, usize>,
}

impl DcbMap {
    /// The abstract content: each key maps to its control block.
    pub open spec fn as_map(self) -> Map<AddrKey, DstCtrlBlock> {
        Map::new(
            |k: AddrKey| self.index@.contains_key(k),
            |k: AddrKey| self.dcbs@[self.index@[k] as int],
        )
    }

    /// The index is a bijection between the keys and the block slots, and
    /// every block is well-formed.
    pub open spec fn wf(self) -> bool {
        &&& self.keys@.len() == self.dcbs@.len()
        &&& forall|i: int|
            0 <= i < self.keys@.len() ==> #[trigger] self.index@.contains_key(self.keys@[i])
                && self.index@[self.keys@[i]] == i
        &&& forall|k: AddrKey|
            #[trigger] self.index@.contains_key(k) ==> self.index@[k] < self.keys@.len()
                && self.keys@[self.index@[k] as int] == k
        &&& forall|i: int| 0 <= i < self.dcbs@.len() ==> (#[trigger] self.dcbs@[i]).wf()
    }

    pub fn new() -> (r: DcbMap)
        ensures
            r.wf(),
            r.as_map() == Map::<AddrKey, DstCtrlBlock>::empty(),
            r.keys@ == Seq::<AddrKey>::empty(),
    {
        let r = DcbMap { keys: Vec::new(), dcbs: Vec::new(), index: HashMap::new() };
        proof {
            assert(r.as_map() =~= Map::<AddrKey, DstCtrlBlock>::empty());
        }
        r
    }

    /// How many destinations are filed.
    pub fn len(&self) -> (r: usize)
        ensures
            r == self.keys@.len(),
    {
        self.keys.len()
    }

    /// The block at a slot, for walking all destinations.
    pub fn dcb_at(&self, i: usize) -> (r: DstCtrlBlock)
        requires
            i < self.dcbs@.len(),
        ensures
            r == self.dcbs@[i as int],
    {
        self.dcbs[i]
    }

    /// The key at a slot.
    pub fn key_at(&self, i: usize) -> (r: AddrKey)
        requires
            i < self.keys@.len(),
        ensures
            r == self.keys@[i as int],
    {
        self.keys[i]
    }

    /// The slot of a key, if the key is filed.
    pub fn index_of(&self, key: AddrKey) -> (r: Option<usize>)
        requires
            self.wf(),
        ensures
            match r {
                Some(i) => self.index@.contains_key(key) && self.index@[key] == i && i
                    < self.dcbs@.len(),
                None => !self.index@.contains_key(key),
            },
    {
        match self.index.get(&key) {
            Some(i_ref) => Some(*i_ref),
            None => None,
        }
    }

    /// Files a block under a key, replacing any block already there.
    pub fn insert(&mut self, key: AddrKey, dcb: DstCtrlBlock)
        requires
            old(self).wf(),
            dcb.wf(),
        ensures
            final(self).wf(),
            final(self).as_map() == old(self).as_map().insert(key, dcb),
            old(self).index@.contains_key(key) ==> final(self).keys@ == old(self).keys@,
            !old(self).index@.contains_key(key) ==> final(self).keys@ == old(self).keys@.push(key),
    {
        let slot = self.index_of(key);
        match slot {
            Some(i) => {
                self.dcbs[i] = dcb;
                proof {
                    assert(final(self).as_map() =~= old(self).as_map().insert(key, dcb));
                }
            },
            None => {
                let i = self.dcbs.len();
                self.keys.push(key);
                self.dcbs.push(dcb);
                self.index.insert(key, i);
                proof {
                    assert(final(self).as_map() =~= old(self).as_map().insert(key, dcb));
                }
            },
        }
    }
}

/// How many subnets of size 2^grain the target network splits into.
pub open spec fn spec_subnet_count(prefix: u8, grain: u8) -> u64
    recommends
        prefix <= 32,
        grain <= 32 - prefix,
{
    1u64 << ((32 - prefix - grain) as u64)
}

/// Whether an address passes the target filter.
pub open spec fn spec_target_kept(a: Ipv4Address, global_only: bool, allow_private: bool) -> bool {
    if global_only && allow_private {
        a.spec_is_bz_global() || a.spec_is_private()
    } else if global_only {
        a.spec_is_bz_global()
    } else {
        true
    }
}

fn target_kept(a: Ipv4Address, global_only: bool, allow_private: bool) -> (r: bool)
    ensures
        r == spec_target_kept(a, global_only, allow_private),
{
    if global_only && allow_private {
        a.is_bz_global() || {
            let o0 = (a.bits >> 24) as u8;
            let o1 = (a.bits >> 16) as u8;
            o0 == 10 || (o0 == 172 && (o1 & 0xf0) == 16) || (o0 == 192 && o1 == 168)
        }
    } else if global_only {
        a.is_bz_global()
    } else {
        true
    }
}

/// What holds of every generated target set.
pub open spec fn spec_targets_wf(m: Map<AddrKey, DstCtrlBlock>, opt: Opt) -> bool {
    forall|k: AddrKey|
        #[trigger] m.contains_key(k) ==> {
            &&& m[k] == spec_new_dcb(m[k].addr, opt.split_ttl)
            &&& spec_addr_to_key(m[k].addr, opt.grain) == k
            &&& (opt.targets matches Targets::Net(n) ==> n.spec_contains(m[k].addr)
                && spec_target_kept(m[k].addr, opt.global_only, opt.allow_private))
            &&& (opt.targets matches Targets::List(addrs) ==> addrs@.contains(m[k].addr))
        }
}

/// The target set built from an explicit list, leftmost first: a later
/// address that shares a key replaces the earlier one.
pub open spec fn spec_list_targets(addrs: Seq<Ipv4Address>, grain: u8, split_ttl: u8) -> Map<
    AddrKey,
    DstCtrlBlock,
>
    decreases addrs.len(),
{
    if addrs.len() == 0 {
        Map::empty()
    } else {
        spec_list_targets(addrs.drop_last(), grain, split_ttl).insert(
            spec_addr_to_key(addrs.last(), grain),
            spec_new_dcb(addrs.last(), split_ttl),
        )
    }
}

/// Builds the target set: for a network, one address drawn per subnet of
/// size 2^grain (filtered if asked); for a list, every listed address. Fails
/// exactly when the grain does not fit the network's prefix.
#[verifier::rlimit(100)]
pub fn generate_targets(opt: &Opt) -> (r: Result<DcbMap, Error>)
    requires
        opt.wf(),
    ensures
        ({
            match opt.targets {
                Targets::Net(n) => (r is Ok) == (opt.grain <= 32 - n.prefix),
                Targets::List(_) => r is Ok,
            }
        }),
        ({
            match opt.targets {
                Targets::Net(n) => opt.grain > 32 - n.prefix ==> r == Err::<DcbMap, Error>(
                    Error::BadGrainOrNet(opt.grain, n),
                ),
                Targets::List(_) => true,
            }
        }),
        r matches Ok(t) ==> {
            &&& t.wf()
            &&& spec_targets_wf(t.as_map(), *opt)
            &&& (opt.targets matches Targets::Net(n) ==> t.keys@.len() <= spec_subnet_count(
                n.prefix,
                opt.grain,
            ) && (!opt.global_only ==> t.keys@.len() == spec_subnet_count(n.prefix, opt.grain)))
            &&& (opt.targets matches Targets::List(addrs) ==> t.as_map() == spec_list_targets(
                addrs@,
                opt.grain,
                opt.split_ttl,
            ))
        },
{
    match &opt.targets {
        Targets::Net(net) => {
            let net = *net;
            if opt.grain > 32 - net.prefix {
                return Err(Error::BadGrainOrNet(opt.grain, net));
            }
            proof {
                net.lemma_size_positive();
            }
            let g: u64 = opt.grain as u64;
            let h: u64 = (32 - net.prefix) as u64;
            let hg: u64 = h - g;
            let network: u32 = net.network();
            let n64: u64 = network as u64;
            let count: u64 = 1u64 << hg;
            let subnet_size: u64 = 1u64 << g;
            let ghost base_key = n64 >> g;
            proof {
                assert(n64 % (1u64 << h) == 0) by (nonlinear_arith)
                    requires
                        n64 == ((net.addr.bits as u64) / (1u64 << h)) * (1u64 << h),
                        1u64 << h > 0,
                ;
                vstd::bits::lemma_u64_pow2_no_overflow(h as nat);
                vstd::bits::lemma_u64_pow2_no_overflow(g as nat);
                vstd::bits::lemma_u64_shl_is_mul(1u64, h);
                vstd::bits::lemma_u64_shl_is_mul(1u64, g);
                let p_g = vstd::arithmetic::power2::pow2(g as nat) as int;
                let p_hg = vstd::arithmetic::power2::pow2((h - g) as nat) as int;
                vstd::arithmetic::power2::lemma_pow2_pos(g as nat);
                vstd::arithmetic::power2::lemma_pow2_pos((h - g) as nat);
                vstd::arithmetic::power2::lemma_pow2_adds(g as nat, (h - g) as nat);
                assert((1u64 << h) == p_g * p_hg);
                vstd::arithmetic::div_mod::lemma_mod_mod(n64 as int, p_g, p_hg);
                assert(n64 % (1u64 << g) == 0);
                assert(1u64 << hg >= 1 && 1u64 << g >= 1 && 1u64 << hg <= 0x1_0000_0000u64)
                    by (bit_vector)
                    requires
                        hg <= 32 && g <= 32,
                ;
            }
            let mut rng = seeded_std_rng(opt.seed);
            let mut targets = DcbMap::new();
            let mut i: u64 = 0;
            while i < count
                invariant
                    targets.wf(),
                    opt.wf(),
                    spec_targets_wf(targets.as_map(), *opt),
                    opt.targets matches Targets::Net(nn) && nn == net,
                    net.wf(),
                    opt.grain <= 32 - net.prefix,
                    g == opt.grain,
                    h == 32 - net.prefix,
                    hg == h - g,
                    count == 1u64 << hg,
                    count <= 0x1_0000_0000u64,
                    subnet_size == 1u64 << g,
                    1 <= subnet_size,
                    n64 == net.spec_network(),
                    n64 % (1u64 << g) == 0,
                    n64 + (1u64 << h) <= 0x1_0000_0000u64,
                    base_key == n64 >> g,
                    i <= count,
                    targets.keys@.len() <= i,
                    !opt.global_only ==> targets.keys@.len() == i,
                    forall|k: AddrKey|
                        #[trigger] targets.index@.contains_key(k) ==> base_key <= k < base_key + i,
                decreases count - i,
            {
                proof {
                    assert((i << g) + (1u64 << g) <= (1u64 << h)) by (bit_vector)
                        requires
                            i < (1u64 << hg) && hg == h - g && g <= h && h <= 32,
                    ;
                }
                let base: u64 = n64 + (i << (g as u64));
                let offset: u64 = rng_below(&mut rng, subnet_size);
                let addr_val: u64 = base + offset;
                let a = Ipv4Address { bits: addr_val as u32 };
                if target_kept(a, opt.global_only, opt.allow_private) {
                    proof {
                        assert(addr_val >> g == (n64 >> g) + i) by (bit_vector)
                            requires
                                addr_val == (n64 + (i << g)) + offset,
                                n64 % (1u64 << g) == 0,
                                offset < (1u64 << g),
                                g <= 32,
                                n64 < 0x1_0000_0000u64,
                                i < 0x1_0000_0000u64,
                                (n64 + (i << g)) + offset < 0x1_0000_0000u64,
                        ;
                        assert((a.bits as u64) == addr_val);
                        assert(spec_addr_to_key(a, opt.grain) == base_key + i);
                        assert(!targets.index@.contains_key(spec_addr_to_key(a, opt.grain)));
                    }
                    let ghost m_before = targets.as_map();
                    let key = addr_to_key(a, opt.grain);
                    targets.insert(key, DstCtrlBlock::new(a, opt.split_ttl));
                    proof {
                        assert forall|k: AddrKey| #[trigger] targets.index@.contains_key(k) implies
                            base_key <= k < base_key + (i + 1) by {
                            assert(targets.as_map().contains_key(k));
                            if k != key {
                                assert(m_before.contains_key(k));
                            }
                        }
                    }
                }
                i = i + 1;
            }
            Ok(targets)
        },
        Targets::List(addrs) => {
            let mut targets = DcbMap::new();
            let mut j: usize = 0;
            while j < addrs.len()
                invariant
                    targets.wf(),
                    opt.wf(),
                    spec_targets_wf(targets.as_map(), *opt),
                    opt.targets matches Targets::List(aa) && aa@ == addrs@,
                    j <= addrs@.len(),
                    targets.as_map() == spec_list_targets(
                        addrs@.take(j as int),
                        opt.grain,
                        opt.split_ttl,
                    ),
                decreases addrs@.len() - j,
            {
                let a = addrs[j];
                let key = addr_to_key(a, opt.grain);
                targets.insert(key, DstCtrlBlock::new(a, opt.split_ttl));
                proof {
                    assert(addrs@[j as int] == a);
                    assert(addrs@.contains(a));
                    assert(addrs@.take(j + 1).drop_last() =~= addrs@.take(j as int));
                    assert(addrs@.take(j + 1).last() == a);
                }
                j = j + 1;
            }
            proof {
                assert(addrs@.take(addrs@.len() as int) =~= addrs@);
            }
            Ok(targets)
        },
    }
}

/// The scheduler's state: the configuration, the target set, the stop flag,
/// and the summary counters the runner fills in.
pub struct Tracerouter {
    pub opt: Opt,
    pub targets: DcbMap,
    pub stopped: bool,
    pub sent_preprobes: u64,
    pub sent_probes: u64,
    pub recv_responses_pre: u64,
    pub recv_responses_main: u64,
    pub backward_count: u64,
    pub forward_count: u64,
    pub total_count: u64,
}

/// The effect of one main-phase reply on its destination's control block:
/// a reply from the destination stops forward probing; a reply from the path
/// stops backward probing when the responder was already in the backward
/// stop set at no more than the estimated distance, and raises the horizon
/// to min(distance + gap, max_ttl) when the distance does not exceed the
/// last forward task handed out.
pub open spec fn spec_probing_effect(
    d: DstCtrlBlock,
    r: ProbeResult,
    in_backward: bool,
    gap: u8,
    max_ttl: u8,
    two: bool,
) -> DstCtrlBlock {
    if !r.from_destination {
        let d1 = if r.distance <= d.initial_ttl && in_backward {
            spec_stop_backward(d, two)
        } else {
            d
        };
        if r.distance <= spec_last_forward_task(d1) {
            let h = if r.distance + gap > max_ttl {
                max_ttl
            } else {
                (r.distance + gap) as u8
            };
            spec_set_forward_horizon(d1, h)
        } else {
            d1
        }
    } else {
        spec_stop_forward(d)
    }
}

impl Tracerouter {
    pub open spec fn wf(self) -> bool {
        self.opt.wf() && self.targets.wf()
    }

    /// Builds the scheduler from a configuration: generates the target set
    /// and starts unstopped, with zeroed counters.
    pub fn new(opt: Opt) -> (r: Result<Tracerouter, Error>)
        requires
            opt.wf(),
        ensures
            ({
                match opt.targets {
                    Targets::Net(n) => (r is Ok) == (opt.grain <= 32 - n.prefix) && (opt.grain > 32
                        - n.prefix ==> r == Err::<Tracerouter, Error>(
                        Error::BadGrainOrNet(opt.grain, n),
                    )),
                    Targets::List(_) => r is Ok,
                }
            }),
            r matches Ok(t) ==> {
                &&& t.wf()
                &&& t.opt == opt
                &&& !t.stopped
                &&& spec_targets_wf(t.targets.as_map(), opt)
                &&& (opt.targets matches Targets::Net(n) ==> t.targets.keys@.len()
                    <= spec_subnet_count(n.prefix, opt.grain) && (!opt.global_only
                    ==> t.targets.keys@.len() == spec_subnet_count(n.prefix, opt.grain)))
                &&& (opt.targets matches Targets::List(addrs) ==> t.targets.as_map()
                    == spec_list_targets(addrs@, opt.grain, opt.split_ttl))
            },
    {
        let targets = match generate_targets(&opt) {
            Ok(t) => t,
            Err(e) => {
                return Err(e);
            },
        };
        Ok(
            Tracerouter {
                opt,
                targets,
                stopped: false,
                sent_preprobes: 0,
                sent_probes: 0,
                recv_responses_pre: 0,
                recv_responses_main: 0,
                backward_count: 0,
                forward_count: 0,
                total_count: 0,
            },
        )
    }

    /// Orders the scheduler to stop; the runner's loops observe the flag.
    pub fn stop(&mut self)
        ensures
            *final(self) == (Tracerouter { stopped: true, ..*old(self) }),
    {
        self.stopped = true;
    }

    pub fn stopped(&self) -> (r: bool)
        ensures
            r == self.stopped,
    {
        self.stopped
    }

    /// One probe order per destination, at the pre-probing TTL.
    pub fn preprobe_units(&self) -> (r: Vec<ProbeUnit>)
        ensures
            r@.len() == self.targets.dcbs@.len(),
            forall|i: int|
                0 <= i < r@.len() ==> r@[i] == (self.targets.dcbs@[i].addr, self.opt.preprobing_ttl),
    {
        let mut units: Vec<ProbeUnit> = Vec::new();
        let mut i: usize = 0;
        while i < self.targets.dcbs.len()
            invariant
                i <= self.targets.dcbs@.len(),
                units@.len() == i,
                forall|j: int|
                    0 <= j < i ==> units@[j] == (
                        self.targets.dcbs@[j].addr,
                        self.opt.preprobing_ttl,
                    ),
            decreases self.targets.dcbs@.len() - i,
        {
            let dcb = self.targets.dcb_at(i);
            units.push((dcb.addr, self.opt.preprobing_ttl));
            i = i + 1;
        }
        units
    }

    /// The pre-probe callback: a reply straight from a destination fixes that
    /// destination's split TTL as accurate, and shares the measured distance
    /// (as a revisable estimate) with every filed key within
    /// `proximity_span` of it. Replies from the path are ignored.
    pub fn preprobing_callback(&mut self, result: ProbeResult)
        requires
            old(self).wf(),
            result.distance < 255,
        ensures
            final(self).wf(),
            final(self).opt == old(self).opt,
            final(self).targets.keys@ == old(self).targets.keys@,
            final(self).targets.index@ == old(self).targets.index@,
            final(self).stopped == old(self).stopped,
            ({
                let key = spec_addr_to_key(result.destination, old(self).opt.grain);
                let m0 = old(self).targets.as_map();
                let span = old(self).opt.proximity_span as int;
                if result.from_destination && m0.contains_key(key) {
                    forall|k: AddrKey|
                        #[trigger] m0.contains_key(k) ==> final(self).targets.as_map()[k] == (if k
                            == key {
                            spec_update_split_ttl(m0[k], result.distance, true)
                        } else if key - span <= k <= key + span {
                            spec_update_split_ttl(m0[k], result.distance, false)
                        } else {
                            m0[k]
                        })
                } else {
                    final(self).targets.as_map() == m0
                }
            }),
    {
        let ghost m0 = old(self).targets.as_map();
        if !result.from_destination {
            proof {
                assert(final(self).targets.as_map() =~= m0);
            }
            return ;
        }
        let key = addr_to_key(result.destination, self.opt.grain);
        let slot = self.targets.index_of(key);
        let i = match slot {
            Some(i) => i,
            None => {
                proof {
                    assert(final(self).targets.as_map() =~= m0);
                }
                return ;
            },
        };
        let mut d = self.targets.dcbs[i];
        d.update_split_ttl(result.distance, true);
        self.targets.dcbs[i] = d;
        proof {
            assert(self.targets.wf());
            assert forall|k: AddrKey| #[trigger] m0.contains_key(k) implies
                self.targets.as_map()[k] == (if k == key {
                    spec_update_split_ttl(m0[k], result.distance, true)
                } else {
                    m0[k]
                }) by {
                if k != key {
                    assert(old(self).targets.index@[k] != old(self).targets.index@[key]);
                }
            }
        }

        // Share the distance with the neighbor keys.
        let span = self.opt.proximity_span as u64;
        let lo: u64 = if key >= span {
            key - span
        } else {
            0
        };
        let width: u64 = if key <= u64::MAX - span {
            (key + span) - lo
        } else {
            u64::MAX - lo
        };
        proof {
            assert(width <= 2 * span);
        }
        let total: u64 = width + 1;
        let ghost span_i = old(self).opt.proximity_span as int;
        let mut o: u64 = 0;
        while o < total
            invariant
                self.wf(),
                self.opt == old(self).opt,
                self.stopped == old(self).stopped,
                self.targets.keys@ == old(self).targets.keys@,
                self.targets.index@ == old(self).targets.index@,
                m0 == old(self).targets.as_map(),
                key == spec_addr_to_key(result.destination, old(self).opt.grain),
                result.distance < 255,
                span_i == old(self).opt.proximity_span as int,
                lo == (if key >= span_i {
                    key - span_i
                } else {
                    0int
                }),
                lo + width == (if key + span_i <= u64::MAX {
                    key + span_i
                } else {
                    u64::MAX as int
                }),
                total == width + 1,
                o <= total,
                forall|k: AddrKey|
                    #[trigger] m0.contains_key(k) ==> self.targets.as_map()[k] == (if k == key {
                        spec_update_split_ttl(m0[k], result.distance, true)
                    } else if lo <= k < lo + o {
                        spec_update_split_ttl(m0[k], result.distance, false)
                    } else {
                        m0[k]
                    }),
            decreases total - o,
        {
            let ghost m_before = self.targets.as_map();
            let n_key = lo + o;
            if n_key != key {
                match self.targets.index_of(n_key) {
                    Some(ni) => {
                        let mut nd = self.targets.dcbs[ni];
                        nd.update_split_ttl(result.distance, false);
                        self.targets.dcbs[ni] = nd;
                        proof {
                            assert forall|k: AddrKey| #[trigger] m0.contains_key(k) implies
                                self.targets.as_map()[k] == (if k == n_key {
                                    spec_update_split_ttl(m_before[k], result.distance, false)
                                } else {
                                    m_before[k]
                                }) by {
                                if k != n_key {
                                    assert(self.targets.index@[k] != self.targets.index@[n_key]);
                                }
                            }
                        }
                    },
                    None => {},
                }
            }
            o = o + 1;
        }
    }

    /// The main-phase callback: steers the destination's control block as
    /// `spec_probing_effect` says, and files the responder in the backward
    /// stop set (path replies at no more than the estimated distance, and
    /// destination replies unless `router_only`) or the forward discovery
    /// set (path replies past the estimate).
    pub fn probing_callback(
        &mut self,
        backward_stop_set: &mut HashSet<u32>,
        forward_discovery_set: &mut HashSet<u32>,
        result: &ProbeResult,
    )
        requires
            old(self).wf(),
            result.distance + old(self).opt.gap < 256,
        ensures
            final(self).wf(),
            final(self).opt == old(self).opt,
            final(self).stopped == old(self).stopped,
            final(self).targets.keys@ == old(self).targets.keys@,
            final(self).targets.index@ == old(self).targets.index@,
            ({
                let key = spec_addr_to_key(result.destination, old(self).opt.grain);
                let m0 = old(self).targets.as_map();
                let opt = old(self).opt;
                if m0.contains_key(key) {
                    let d0 = m0[key];
                    &&& forall|k: AddrKey|
                        #[trigger] m0.contains_key(k) ==> final(self).targets.as_map()[k] == (if k
                            == key {
                            spec_probing_effect(
                                d0,
                                *result,
                                old(backward_stop_set)@.contains(result.responder.bits),
                                opt.gap,
                                opt.max_ttl,
                                opt.two,
                            )
                        } else {
                            m0[k]
                        })
                    &&& final(backward_stop_set)@ == (if !result.from_destination
                        && result.distance <= d0.initial_ttl {
                        old(backward_stop_set)@.insert(result.responder.bits)
                    } else if result.from_destination && !opt.router_only {
                        old(backward_stop_set)@.insert(result.responder.bits)
                    } else {
                        old(backward_stop_set)@
                    })
                    &&& final(forward_discovery_set)@ == (if !result.from_destination
                        && result.distance > d0.initial_ttl {
                        old(forward_discovery_set)@.insert(result.responder.bits)
                    } else {
                        old(forward_discovery_set)@
                    })
                } else {
                    &&& final(self).targets.as_map() == m0
                    &&& final(backward_stop_set)@ == old(backward_stop_set)@
                    &&& final(forward_discovery_set)@ == old(forward_discovery_set)@
                }
            }),
    {
        let ghost m0 = old(self).targets.as_map();
        let key = addr_to_key(result.destination, self.opt.grain);
        let slot = self.targets.index_of(key);
        let i = match slot {
            Some(i) => i,
            None => {
                proof {
                    assert(final(self).targets.as_map() =~= m0);
                }
                return ;
            },
        };
        let mut d = self.targets.dcbs[i];
        if !result.from_destination {
            if result.distance > d.initial_ttl {
                // A host on the path past the current estimate.
                forward_discovery_set.insert(result.responder.bits);
            } else {
                // A host on the path at or before the estimate.
                let seen = backward_stop_set.contains(&result.responder.bits);
                if seen {
                    d.stop_backward(self.opt.two);
                }
                backward_stop_set.insert(result.responder.bits);
            }
            if result.distance <= d.last_forward_task() {
                let sum = result.distance + self.opt.gap;
                let h = if sum > self.opt.max_ttl {
                    self.opt.max_ttl
                } else {
                    sum
                };
                d.set_forward_horizon(h);
            }
        } else {
            if !self.opt.router_only {
                backward_stop_set.insert(result.responder.bits);
            }
            d.stop_forward();
        }
        self.targets.dcbs[i] = d;
        proof {
            assert(self.targets.wf());
            assert(self.targets.as_map()[key] == d);
            assert forall|k: AddrKey| #[trigger] m0.contains_key(k) && k != key implies
                self.targets.as_map()[k] == m0[k] by {
                assert(old(self).targets.index@[k] != old(self).targets.index@[key]);
            }
        }
    }

    /// One scheduling round over the given keys: each destination is asked
    /// for one backward and one forward task; the probe orders are collected,
    /// and a destination stays on the work list only if it handed out at
    /// least one task.
    pub fn probing_round(&mut self, keys: &Vec<AddrKey>) -> (r: (Vec<ProbeUnit>, Vec<AddrKey>))
        requires
            old(self).wf(),
            forall|j: int|
                0 <= j < keys@.len() ==> old(self).targets.index@.contains_key(
                    #[trigger] keys@[j],
                ),
        ensures
            final(self).wf(),
            final(self).opt == old(self).opt,
            final(self).stopped == old(self).stopped,
            final(self).targets.keys@ == old(self).targets.keys@,
            final(self).targets.index@ == old(self).targets.index@,
            ({
                let folded = spec_round(old(self).targets.as_map(), keys@);
                &&& final(self).targets.as_map() == folded.0
                &&& r.0@ == folded.1
                &&& r.1@ == folded.2
            }),
    {
        let ghost m0 = old(self).targets.as_map();
        let mut probes: Vec<ProbeUnit> = Vec::new();
        let mut new_keys: Vec<AddrKey> = Vec::new();
        let mut j: usize = 0;
        proof {
            assert(keys@.skip(0) =~= keys@);
        }
        while j < keys.len()
            invariant
                self.wf(),
                self.opt == old(self).opt,
                self.stopped == old(self).stopped,
                self.targets.keys@ == old(self).targets.keys@,
                self.targets.index@ == old(self).targets.index@,
                m0 == old(self).targets.as_map(),
                j <= keys@.len(),
                forall|jj: int|
                    0 <= jj < keys@.len() ==> self.targets.index@.contains_key(
                        #[trigger] keys@[jj],
                    ),
                spec_round(m0, keys@) == (
                    spec_round(self.targets.as_map(), keys@.skip(j as int)).0,
                    probes@ + spec_round(self.targets.as_map(), keys@.skip(j as int)).1,
                    new_keys@ + spec_round(self.targets.as_map(), keys@.skip(j as int)).2,
                ),
            decreases keys@.len() - j,
        {
            let ghost m_before = self.targets.as_map();
            let key = keys[j];
            proof {
                assert(keys@.skip(j as int)[0] == key);
                assert(keys@.skip(j as int).skip(1) =~= keys@.skip(j as int + 1));
            }
            let i = match self.targets.index_of(key) {
                Some(i) => i,
                None => {
                    proof {
                        assert(false);
                    }
                    return (probes, new_keys);
                },
            };
            let mut d = self.targets.dcbs[i];
            let ghost d0 = d;
            let backward = d.pull_backward_task();
            let forward = d.pull_forward_task();
            self.targets.dcbs[i] = d;
            let mut kept = false;
            if let Some(t) = backward {
                probes.push((d.addr, t));
                kept = true;
            }
            if let Some(t) = forward {
                probes.push((d.addr, t));
                kept = true;
            }
            if kept {
                new_keys.push(key);
            }
            proof {
                assert(self.targets.as_map() =~= m_before.insert(key, d));
                assert(d0.addr == d.addr);
            }
            j = j + 1;
        }
        proof {
            assert(keys@.skip(keys@.len() as int) =~= Seq::<AddrKey>::empty());
            assert(probes@ + Seq::<ProbeUnit>::empty() =~= probes@);
            assert(new_keys@ + Seq::<AddrKey>::empty() =~= new_keys@);
        }
        (probes, new_keys)
    }
}

/// One round of task pulls over a key list, leftmost first: the updated
/// blocks, the probe orders in pull order (backward before forward per
/// destination), and the keys that stay on the work list.
pub open spec fn spec_round(m: Map<AddrKey, DstCtrlBlock>, keys: Seq<AddrKey>) -> (
    Map<AddrKey, DstCtrlBlock>,
    Seq<ProbeUnit>,
    Seq<AddrKey>,
)
    decreases keys.len(),
{
    if keys.len() == 0 {
        (m, Seq::empty(), Seq::empty())
    } else {
        let k = keys[0];
        if !m.contains_key(k) {
            spec_round(m, keys.skip(1))
        } else {
            let d0 = m[k];
            let (d1, rb) = spec_pull_backward(d0);
            let (d2, rf) = spec_pull_forward(d1);
            let here_probes = (match rb {
                Some(t) => seq![(d0.addr, t)],
                None => Seq::empty(),
            }) + (match rf {
                Some(t) => seq![(d0.addr, t)],
                None => Seq::empty(),
            });
            let here_keys: Seq<AddrKey> = if rb is Some || rf is Some {
                seq![k]
            } else {
                Seq::empty()
            };
            let rest = spec_round(m.insert(k, d2), keys.skip(1));
            (rest.0, here_probes + rest.1, here_keys + rest.2)
        }
    }
}

} // verus!
