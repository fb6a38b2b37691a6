//! Destination Control Block: the per-target state machine whose two cursors
//! (backward and forward) and horizon drive adaptive TTL probing.

use vstd::prelude::*;
use crate::addr::Ipv4Address;

verus! {

/// Per-destination probing state.
///
/// At every quiescent moment a well-formed block satisfies [`DstCtrlBlock::wf`]:
/// the backward cursor never exceeds the initial TTL estimate, the forward
/// cursor sits strictly past the initial TTL estimate, and the horizon leaves
/// room for the forward cursor to advance without wrapping.
#[derive(Clone, Copy, Debug)]
pub struct DstCtrlBlock {
    pub addr: Ipv4Address,
    pub initial_ttl: u8,
    pub accurate_distance: bool,
    pub next_backward_hop: u8,
    pub next_forward_hop: u8,
    pub forward_horizon: u8,
    pub backward_count: u8,
}

/// The state of a freshly created block: both cursors bracket the split TTL.
pub open spec fn spec_new_dcb(addr: Ipv4Address, initial_ttl: u8) -> DstCtrlBlock {
    DstCtrlBlock {
        addr,
        initial_ttl,
        accurate_distance: false,
        next_backward_hop: initial_ttl,
        next_forward_hop: (initial_ttl + 1) as u8,
        forward_horizon: initial_ttl,
        backward_count: 0,
    }
}

/// Re-centering the block on a new split TTL; a no-op once an accurate
/// distance has latched.
pub open spec fn spec_update_split_ttl(d: DstCtrlBlock, new_ttl: u8, accurate: bool) -> DstCtrlBlock {
    if d.accurate_distance {
        d
    } else {
        DstCtrlBlock {
            addr: d.addr,
            initial_ttl: new_ttl,
            accurate_distance: accurate,
            next_backward_hop: new_ttl,
            next_forward_hop: (new_ttl + 1) as u8,
            forward_horizon: new_ttl,
            backward_count: d.backward_count,
        }
    }
}

/// One backward pull: hand out the cursor value while it is positive and step
/// it down; the pull counter advances (wrapping) on every attempt.
pub open spec fn spec_pull_backward(d: DstCtrlBlock) -> (DstCtrlBlock, Option<u8>) {
    let count = if d.backward_count == 255 { 0u8 } else { (d.backward_count + 1) as u8 };
    if d.next_backward_hop > 0 {
        (
            DstCtrlBlock {
                next_backward_hop: (d.next_backward_hop - 1) as u8,
                backward_count: count,
                ..d
            },
            Some(d.next_backward_hop),
        )
    } else {
        (DstCtrlBlock { backward_count: count, ..d }, None)
    }
}

/// One forward pull: hand out the cursor value while it has not passed the
/// horizon, and step it up.
pub open spec fn spec_pull_forward(d: DstCtrlBlock) -> (DstCtrlBlock, Option<u8>) {
    if d.next_forward_hop <= d.forward_horizon {
        (
            DstCtrlBlock { next_forward_hop: (d.next_forward_hop + 1) as u8, ..d },
            Some(d.next_forward_hop),
        )
    } else {
        (d, None)
    }
}

/// Raising the horizon: monotone except that a zero argument is ignored.
pub open spec fn spec_set_forward_horizon(d: DstCtrlBlock, new_horizon: u8) -> DstCtrlBlock {
    if new_horizon == 0 {
        d
    } else if new_horizon > d.forward_horizon {
        DstCtrlBlock { forward_horizon: new_horizon, ..d }
    } else {
        d
    }
}

/// Clamping the backward cursor to zero, gated on the two-probe minimum when
/// that option is on.
pub open spec fn spec_stop_backward(d: DstCtrlBlock, two: bool) -> DstCtrlBlock {
    if !two || d.backward_count >= 2 {
        DstCtrlBlock { next_backward_hop: 0, ..d }
    } else {
        d
    }
}

/// Clamping the horizon to zero, after which forward pulls fail.
pub open spec fn spec_stop_forward(d: DstCtrlBlock) -> DstCtrlBlock {
    DstCtrlBlock { forward_horizon: 0, ..d }
}

/// The TTL handed out by the most recent forward pull (saturating at zero).
pub open spec fn spec_last_forward_task(d: DstCtrlBlock) -> u8 {
    if d.next_forward_hop == 0 {
        0u8
    } else {
        (d.next_forward_hop - 1) as u8
    }
}

impl DstCtrlBlock {
    /// Well-formedness, established by `new` and preserved by every operation.
    pub open spec fn wf(self) -> bool {
        &&& self.next_backward_hop <= self.initial_ttl
        &&& self.initial_ttl < self.next_forward_hop
        &&& self.forward_horizon < 255
        &&& self.initial_ttl < 255
    }

    pub fn new(addr: Ipv4Address, initial_ttl: u8) -> (r: DstCtrlBlock)
        requires
            initial_ttl < 255,
        ensures
            r == spec_new_dcb(addr, initial_ttl),
            r.wf(),
    {
        DstCtrlBlock {
            addr,
            initial_ttl,
            accurate_distance: false,
            next_backward_hop: initial_ttl,
            next_forward_hop: initial_ttl + 1,
            forward_horizon: initial_ttl,
            backward_count: 0,
        }
    }

    pub fn update_split_ttl(&mut self, new_ttl: u8, accurate: bool)
        requires
            old(self).wf(),
            new_ttl < 255,
        ensures
            *final(self) == spec_update_split_ttl(*old(self), new_ttl, accurate),
            final(self).wf(),
    {
        if self.accurate_distance {
            return ;
        }
        self.initial_ttl = new_ttl;
        self.next_backward_hop = new_ttl;
        self.next_forward_hop = new_ttl + 1;
        self.forward_horizon = new_ttl;
        self.accurate_distance = accurate;
    }

    pub fn initial_ttl(&self) -> (r: u8)
        ensures
            r == self.initial_ttl,
    {
        self.initial_ttl
    }

    pub fn pull_backward_task(&mut self) -> (r: Option<u8>)
        requires
            old(self).wf(),
        ensures
            *final(self) == spec_pull_backward(*old(self)).0,
            r == spec_pull_backward(*old(self)).1,
            final(self).wf(),
    {
        let count = if self.backward_count == 255 {
            0u8
        } else {
            self.backward_count + 1
        };
        self.backward_count = count;
        if self.next_backward_hop > 0 {
            let hop = self.next_backward_hop;
            self.next_backward_hop = hop - 1;
            Some(hop)
        } else {
            None
        }
    }

    pub fn pull_forward_task(&mut self) -> (r: Option<u8>)
        requires
            old(self).wf(),
        ensures
            *final(self) == spec_pull_forward(*old(self)).0,
            r == spec_pull_forward(*old(self)).1,
            final(self).wf(),
    {
        if self.next_forward_hop <= self.forward_horizon {
            let hop = self.next_forward_hop;
            self.next_forward_hop = hop + 1;
            Some(hop)
        } else {
            None
        }
    }

    pub fn last_forward_task(&self) -> (r: u8)
        ensures
            r == spec_last_forward_task(*self),
    {
        if self.next_forward_hop == 0 {
            0
        } else {
            self.next_forward_hop - 1
        }
    }

    pub fn set_forward_horizon(&mut self, new_horizon: u8)
        requires
            old(self).wf(),
            new_horizon < 255,
        ensures
            *final(self) == spec_set_forward_horizon(*old(self), new_horizon),
            final(self).wf(),
    {
        if new_horizon == 0 {
            return ;
        }
        if new_horizon > self.forward_horizon {
            self.forward_horizon = new_horizon;
        }
    }

    pub fn stop_backward(&mut self, two: bool)
        requires
            old(self).wf(),
        ensures
            *final(self) == spec_stop_backward(*old(self), two),
            final(self).wf(),
    {
        if !two || self.backward_count >= 2 {
            self.next_backward_hop = 0;
        }
    }

    pub fn stop_forward(&mut self)
        requires
            old(self).wf(),
        ensures
            *final(self) == spec_stop_forward(*old(self)),
            final(self).wf(),
    {
        self.forward_horizon = 0;
    }
}

/// The block after `k` backward pulls.
pub open spec fn backward_pulled(d: DstCtrlBlock, k: nat) -> DstCtrlBlock
    decreases k,
{
    if k == 0 {
        d
    } else {
        spec_pull_backward(backward_pulled(d, (k - 1) as nat)).0
    }
}

/// The block after `k` forward pulls.
pub open spec fn forward_pulled(d: DstCtrlBlock, k: nat) -> DstCtrlBlock
    decreases k,
{
    if k == 0 {
        d
    } else {
        spec_pull_forward(forward_pulled(d, (k - 1) as nat)).0
    }
}

/// Law: from a block whose backward cursor sits at its initial TTL estimate
/// `T` — as in a fresh block — successive backward pulls return exactly
/// `T, T-1, ..., 1` and then `None` forever: the pull made after `k` earlier
/// pulls returns `Some(T-k)` when `k < T`, and `None` once `k >= T`.
pub proof fn lemma_backward_pull_sequence(d: DstCtrlBlock, k: nat)
    requires
        d.next_backward_hop == d.initial_ttl,
    ensures
        backward_pulled(d, k).next_backward_hop == if k <= d.initial_ttl {
            d.initial_ttl - k
        } else {
            0int
        },
        k < d.initial_ttl ==> spec_pull_backward(backward_pulled(d, k)).1 == Some(
            (d.initial_ttl - k) as u8,
        ),
        k >= d.initial_ttl ==> spec_pull_backward(backward_pulled(d, k)).1 == None::<u8>,
    decreases k,
{
    if k > 0 {
        lemma_backward_pull_sequence(d, (k - 1) as nat);
    }
}

/// Law: while the forward cursor is past the horizon, forward pulls return
/// `None` and leave the cursor where it is; otherwise the pull made after `k`
/// earlier pulls returns `Some(next + k)` as long as `next + k` has not
/// passed the horizon, and `None` afterwards.
pub proof fn lemma_forward_pull_run(d: DstCtrlBlock, k: nat)
    requires
        d.forward_horizon < 255,
    ensures
        forward_pulled(d, k).next_forward_hop == if d.next_forward_hop > d.forward_horizon {
            d.next_forward_hop as int
        } else if d.next_forward_hop + k <= d.forward_horizon + 1 {
            d.next_forward_hop + k
        } else {
            d.forward_horizon + 1
        },
        forward_pulled(d, k).forward_horizon == d.forward_horizon,
        d.next_forward_hop + k <= d.forward_horizon ==> spec_pull_forward(
            forward_pulled(d, k),
        ).1 == Some((d.next_forward_hop + k) as u8),
        d.next_forward_hop + k > d.forward_horizon ==> spec_pull_forward(
            forward_pulled(d, k),
        ).1 == None::<u8>,
    decreases k,
{
    if k > 0 {
        lemma_forward_pull_run(d, (k - 1) as nat);
    }
}

/// Law: on a fresh block — forward cursor one past the initial TTL estimate,
/// horizon equal to it — every forward pull returns `None` until the horizon
/// is raised, and the block is left unchanged.
pub proof fn lemma_forward_pull_fresh_none(addr: Ipv4Address, initial_ttl: u8, k: nat)
    requires
        initial_ttl < 255,
    ensures
        forward_pulled(spec_new_dcb(addr, initial_ttl), k) == spec_new_dcb(addr, initial_ttl),
        spec_pull_forward(forward_pulled(spec_new_dcb(addr, initial_ttl), k)).1 == None::<u8>,
    decreases k,
{
    if k > 0 {
        lemma_forward_pull_fresh_none(addr, initial_ttl, (k - 1) as nat);
    }
}

/// Law: after raising the horizon of a fresh block with initial TTL estimate
/// `T` to `H > T`, forward pulls yield exactly `T+1, T+2, ..., H` and then
/// `None` forever: the pull made after `k` earlier pulls returns
/// `Some(T+1+k)` while `T+1+k <= H`, and `None` afterwards.
pub proof fn lemma_forward_pull_sequence(d: DstCtrlBlock, h: u8, k: nat)
    requires
        d.next_forward_hop == d.initial_ttl + 1,
        d.forward_horizon == d.initial_ttl,
        h > d.initial_ttl,
        h < 255,
    ensures
        ({
            let d2 = spec_set_forward_horizon(d, h);
            &&& d.initial_ttl + 1 + k <= h ==> spec_pull_forward(forward_pulled(d2, k)).1 == Some(
                (d.initial_ttl + 1 + k) as u8,
            )
            &&& d.initial_ttl + 1 + k > h ==> spec_pull_forward(forward_pulled(d2, k)).1
                == None::<u8>
        }),
{
    let d2 = spec_set_forward_horizon(d, h);
    lemma_forward_pull_run(d2, k);
}

/// Law: after stopping forward probing, every later forward pull returns
/// `None`, whatever horizon had been set before.
pub proof fn lemma_stop_forward_stalls(d: DstCtrlBlock, k: nat)
    requires
        d.next_forward_hop >= 1,
    ensures
        spec_pull_forward(forward_pulled(spec_stop_forward(d), k)).1 == None::<u8>,
{
    lemma_forward_pull_run(spec_stop_forward(d), k);
}

/// Law: after a backward stop that takes effect — the two-probe gate off, or
/// at least two backward pulls already made — every later backward pull
/// returns `None`.
pub proof fn lemma_stop_backward_stalls(d: DstCtrlBlock, two: bool, k: nat)
    requires
        !two || d.backward_count >= 2,
    ensures
        backward_pulled(spec_stop_backward(d, two), k).next_backward_hop == 0,
        spec_pull_backward(backward_pulled(spec_stop_backward(d, two), k)).1 == None::<u8>,
    decreases k,
{
    if k > 0 {
        lemma_stop_backward_stalls(d, two, (k - 1) as nat);
    }
}

/// Law: an accurate split-TTL update is a one-way latch — once it has been
/// applied, a further update with any values whatsoever leaves the block
/// unchanged.
pub proof fn lemma_update_split_ttl_latch(d: DstCtrlBlock, t1: u8, t2: u8, accurate2: bool)
    ensures
        ({
            let d1 = spec_update_split_ttl(d, t1, true);
            spec_update_split_ttl(d1, t2, accurate2) == d1
        }),
{
}

} // verus!
