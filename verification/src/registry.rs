//! A registry of cache nodes by identity.

use crate::model::NodeView;
use crate::node::{CacheNode, Initialized};
use vstd::prelude::*;

verus! {

/// Keeps track of nodes by the identity their owner registered them under.
/// The registry never looks inside a node: two registrations are the same
/// node exactly when their identities are equal.
pub struct Cache {
    /// The identities of the registered nodes, in the order of registration.
    pub buffer: Vec<u64>,
}

impl Cache {
    /// A registry with no node in it.
    pub fn new() -> (registry: Self)
        ensures
            registry.buffer@ == Seq::<u64>::empty(),
    {
        Cache { buffer: Vec::new() }
    }

    /// A node in its first stage: no entries, no expiration, stale entries
    /// are dropped, windows of ten seconds, room for eight entries.
    pub fn new_node() -> (node: CacheNode<Initialized>)
        ensures
            node@ == NodeView::initial(),
    {
        CacheNode::new()
    }

    /// Registers the node known as `node` behind all earlier registrations.
    /// One identity may be registered more than once.
    pub fn push(&mut self, node: u64)
        ensures
            final(self).buffer@ == old(self).buffer@.push(node),
    {
        self.buffer.push(node);
    }

    /// Whether the earliest registration of `node` stands at `index`.
    pub open spec fn is_earliest(&self, node: u64, index: int) -> bool {
        &&& 0 <= index < self.buffer@.len()
        &&& self.buffer@[index] == node
        &&& forall|j: int| 0 <= j < index ==> self.buffer@[j] != node
    }

    /// Where the earliest registration of `node` stands, if `node` is
    /// registered at all.
    pub fn position(&self, node: u64) -> (found: Option<usize>)
        ensures
            match found {
                Some(index) => self.is_earliest(node, index as int),
                None => !self.buffer@.contains(node),
            },
    {
        let mut index: usize = 0;
        while index < self.buffer.len()
            invariant
                index <= self.buffer.len(),
                forall|j: int| 0 <= j < index ==> self.buffer@[j] != node,
            decreases self.buffer.len() - index,
        {
            if self.buffer[index] == node {
                return Some(index);
            }
            index += 1;
        }
        None
    }

    /// Takes the earliest registration of `node` out; the others keep their
    /// order.
    pub fn remove(&mut self, node: u64)
        requires
            old(self).buffer@.contains(node),
        ensures
            final(self).buffer@ == old(self).buffer@.remove_value(node),
    {
        proof {
            self.buffer@.index_of_first_ensures(node);
        }
        let index = self.position(node).unwrap();
        self.buffer.remove(index);
    }
}

} // verus!
