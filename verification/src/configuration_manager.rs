use std::collections::HashSet;

use vstd::prelude::*;
use vstd::std_specs::iter::IteratorSpec;

use crate::types::{Int, NodeId};

verus! {

broadcast use vstd::std_specs::hash::group_hash_axioms;

/// The node's own id and the ids of all nodes of the system.
#[derive(Debug)]
pub struct ConfigurationManager {
    node_id: NodeId,
    node_ids: HashSet<NodeId>,
}

impl ConfigurationManager {
    pub closed spec fn spec_node_id(&self) -> NodeId {
        self.node_id
    }

    pub closed spec fn spec_node_ids(&self) -> Set<NodeId> {
        self.node_ids@
    }

    pub fn new(node_id: NodeId, node_ids: HashSet<NodeId>) -> (manager: ConfigurationManager)
        ensures
            manager.spec_node_id() == node_id,
            manager.spec_node_ids() == node_ids@,
    {
        ConfigurationManager { node_id: node_id, node_ids: node_ids }
    }

    pub fn node_id(&self) -> (node_id: NodeId)
        ensures
            node_id == self.spec_node_id(),
    {
        self.node_id
    }

    pub fn node_ids(&self) -> (node_ids: &HashSet<NodeId>)
        ensures
            node_ids@ == self.spec_node_ids(),
    {
        &self.node_ids
    }

    /// The number of nodes of the system, as an `Int`.
    pub fn number_of_nodes(&self) -> (number: Int)
        ensures
            number == self.spec_node_ids().len() as Int,
    {
        self.node_ids.len() as Int
    }
}

/// A copy of a set of node ids.
pub fn copy_node_ids(node_ids: &HashSet<NodeId>) -> (copy: HashSet<NodeId>)
    ensures
        copy@ == node_ids@,
{
    let mut copy: HashSet<NodeId> = HashSet::new();
    let ghost keys = node_ids.iter().remaining().unref();
    let ghost mut visited: int = 0;
    for node_id in it: node_ids.iter()
        invariant
            keys == it.seq().unref(),
            visited == it.index(),
            copy@ == keys.take(visited).to_set(),
    {
        proof {
            assert(keys.take(visited + 1) =~= keys.take(visited).push(*node_id));
            keys.take(visited).lemma_push_to_set_commute(*node_id);
        }
        copy.insert(*node_id);
        proof {
            visited = visited + 1;
        }
    }
    assert(keys.take(visited) =~= keys);
    copy
}

/// The ids of a set of node ids, each once, in no particular order.
pub fn id_list(node_ids: &HashSet<NodeId>) -> (ids: Vec<NodeId>)
    ensures
        ids@.to_set() == node_ids@,
        ids@.no_duplicates(),
{
    let mut ids: Vec<NodeId> = Vec::new();
    let ghost keys = node_ids.iter().remaining().unref();
    let ghost mut visited: int = 0;
    for node_id in it: node_ids.iter()
        invariant
            keys == it.seq().unref(),
            keys.no_duplicates(),
            visited == it.index(),
            ids@ == keys.take(visited),
    {
        ids.push(*node_id);
        proof {
            assert(keys.take(visited + 1) =~= keys.take(visited).push(*node_id));
            visited = visited + 1;
        }
    }
    proof {
        assert(keys.take(visited) =~= keys);
    }
    ids
}

} // verus!
