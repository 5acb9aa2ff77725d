//! Replay protection: per-node monotonic sequence numbers.

use std::collections::BTreeMap;
use vstd::prelude::*;

verus! {

broadcast use vstd::std_specs::btree::group_btree_axioms;

/// Tracks the last accepted sequence number of each node to reject replayed
/// frames.
#[derive(Debug)]
pub struct ReplayGuard {
    last_seq: BTreeMap<u8, u32>,
}

impl View for ReplayGuard {
    type V = Map<u8, u32>;

    /// The last accepted sequence number of each node seen so far.
    closed spec fn view(&self) -> Map<u8, u32> {
        self.last_seq@
    }
}

/// Whether a frame with `seq` from `node_id` is new with respect to `seen`.
pub open spec fn is_fresh(seen: Map<u8, u32>, node_id: u8, seq: u32) -> bool {
    !seen.contains_key(node_id) || seq > seen[node_id]
}

impl ReplayGuard {
    /// A guard that has seen nothing.
    pub fn new() -> (g: Self)
        ensures
            g@ == Map::<u8, u32>::empty(),
    {
        ReplayGuard { last_seq: BTreeMap::new() }
    }

    /// Accepts `seq` exactly when it is strictly greater than the last
    /// accepted sequence number of `node_id` (or the node is new), and then
    /// records it; a refused frame leaves the guard unchanged.
    pub fn accept(&mut self, node_id: u8, seq: u32) -> (accepted: bool)
        ensures
            accepted == is_fresh(old(self)@, node_id, seq),
            accepted ==> final(self)@ == old(self)@.insert(node_id, seq),
            !accepted ==> final(self)@ == old(self)@,
    {
        match self.last_seq.get(&node_id) {
            Some(last) => {
                if seq <= *last {
                    return false;
                }
            },
            None => {},
        }
        self.last_seq.insert(node_id, seq);
        true
    }

    /// The last accepted sequence number of `node_id`, if any.
    pub fn last_seq(&self, node_id: u8) -> (r: Option<u32>)
        ensures
            r == (if self@.contains_key(node_id) { Some(self@[node_id]) } else { None::<u32> }),
    {
        match self.last_seq.get(&node_id) {
            Some(v) => Some(*v),
            None => None,
        }
    }
}

impl Default for ReplayGuard {
    /// Same as [`ReplayGuard::new`].
    fn default() -> (g: Self)
        ensures
            g@ == Map::<u8, u32>::empty(),
    {
        ReplayGuard::new()
    }
}

/// A frame that was accepted cannot be accepted again: replaying the same
/// (node, seq) right after it is refused, as is any older sequence number.
pub proof fn law_replay_refused(seen: Map<u8, u32>, node_id: u8, seq: u32, replayed: u32)
    requires
        is_fresh(seen, node_id, seq),
        replayed <= seq,
    ensures
        !is_fresh(seen.insert(node_id, seq), node_id, replayed),
{
}

/// Nodes are independent: accepting a frame of one node changes neither the
/// record nor the verdicts of any other node.
pub proof fn law_nodes_independent(seen: Map<u8, u32>, node_id: u8, seq: u32, other: u8, other_seq: u32)
    requires
        other != node_id,
    ensures
        seen.insert(node_id, seq).contains_key(other) == seen.contains_key(other),
        seen.insert(node_id, seq).contains_key(other) ==> seen.insert(node_id, seq)[other] == seen[other],
        is_fresh(seen.insert(node_id, seq), other, other_seq) == is_fresh(seen, other, other_seq),
{
}

/// The recorded sequence number of a node never decreases.
pub proof fn law_last_seq_monotonic(seen: Map<u8, u32>, node_id: u8, seq: u32)
    requires
        is_fresh(seen, node_id, seq),
        seen.contains_key(node_id),
    ensures
        seen.insert(node_id, seq)[node_id] > seen[node_id],
{
}

} // verus!
