//! Cluster membership as this node sees it: the peers it knows, the changes it may
//! propose, and what a committed change does to its peer list.
//!
//! Membership changes are given by their wire numbers: 0 adds a node, 1 removes one.
use vstd::prelude::*;

use crate::error::BlixardError;
use crate::messages::ConfChangeType;
use crate::tables::Table;

verus! {

/// The wire number of a membership change kind: 0 to add a node, 1 to remove one.
pub open spec fn change_code(t: ConfChangeType) -> i32 {
    match t {
        ConfChangeType::AddNode => 0,
        ConfChangeType::RemoveNode => 1,
    }
}

/// The wire number of a membership change kind.
pub fn raft_change_code(t: ConfChangeType) -> (c: i32)
    ensures
        c == change_code(t),
{
    match t {
        ConfChangeType::AddNode => 0,
        ConfChangeType::RemoveNode => 1,
    }
}

/// The leader a node knows of, from the consensus module's leader id, where 0
/// stands for none.
pub open spec fn known_leader(leader_id: u64) -> Option<u64> {
    if leader_id == 0 {
        None
    } else {
        Some(leader_id)
    }
}

/// The leader a node knows of, from the consensus module's leader id, where 0
/// stands for none.
pub fn leader_hint(leader_id: u64) -> (r: Option<u64>)
    ensures
        r == known_leader(leader_id),
{
    if leader_id == 0 {
        None
    } else {
        Some(leader_id)
    }
}

/// Whether this node may propose a membership change: only the leader may; any
/// other node answers that it is not the leader, naming the leader it knows.
pub fn check_can_propose(is_leader: bool, leader_id: u64) -> (r: Result<(), BlixardError>)
    ensures
        is_leader ==> r is Ok,
        !is_leader ==> r == Err::<(), BlixardError>(
            BlixardError::NotLeader { operation: "propose configuration change", leader_id: known_leader(leader_id) },
        ),
{
    if is_leader {
        Ok(())
    } else {
        Err(BlixardError::NotLeader { operation: "propose configuration change", leader_id: leader_hint(leader_id) })
    }
}

/// The peers after a committed change of kind `code` for `node_id`: an addition
/// records the address its context carried (nothing when it carried none), a
/// removal forgets the node, any other kind changes nothing.
pub open spec fn peers_after(peers: Map<u64, Seq<char>>, code: i32, node_id: u64, address: Option<Seq<char>>) -> Map<u64, Seq<char>> {
    if code == 0 {
        match address {
            Some(a) => peers.insert(node_id, a),
            None => peers,
        }
    } else if code == 1 {
        peers.remove(node_id)
    } else {
        peers
    }
}

/// This node's view of the cluster's membership.
pub struct Membership {
    pub node_id: u64,
    /// Known peers and their addresses.
    pub peers: Table<(u64, String)>,
    /// Set when a node was added, until it is read.
    pub needs_replication: bool,
}

impl Membership {
    /// Well-formed: no peer is listed twice.
    pub open spec fn wf(&self) -> bool {
        self.peers.wf()
    }

    /// The peers as a map from node id to address.
    pub open spec fn peer_map(&self) -> Map<u64, Seq<char>> {
        self.peers.map().map_values(|e: (u64, String)| e.1@)
    }

    /// No peers known yet.
    pub fn new(node_id: u64) -> (m: Self)
        ensures
            m.wf(),
            m.node_id == node_id,
            m.peer_map() == Map::<u64, Seq<char>>::empty(),
            !m.needs_replication,
    {
        let m = Membership { node_id, peers: Table::new(), needs_replication: false };
        assert(m.peer_map() =~= Map::<u64, Seq<char>>::empty());
        m
    }

    /// Whether this node is the cluster's only voter.
    pub fn is_single_node_cluster(&self, voters: &Vec<u64>) -> (r: bool)
        ensures
            r == (voters@.len() == 1 && voters@[0] == self.node_id),
    {
        voters.len() == 1 && voters[0] == self.node_id
    }

    /// The known peers and their addresses, in table order.
    pub fn get_peers(&self) -> (r: Vec<(u64, String)>)
        ensures
            r@.len() == self.peers.entries@.len(),
            forall|i: int|
                0 <= i < r@.len() ==> (#[trigger] r@[i]).0 == self.peers.entries@[i].0 && r@[i].1@
                    == self.peers.entries@[i].1@,
    {
        let mut r: Vec<(u64, String)> = Vec::new();
        let mut i: usize = 0;
        while i < self.peers.entries.len()
            invariant
                i <= self.peers.entries@.len(),
                r@.len() == i,
                forall|q: int|
                    0 <= q < i ==> (#[trigger] r@[q]).0 == self.peers.entries@[q].0 && r@[q].1@
                        == self.peers.entries@[q].1@,
            decreases self.peers.entries@.len() - i,
        {
            let e = &self.peers.entries[i];
            r.push((e.0, e.1.clone()));
            i = i + 1;
        }
        r
    }

    /// Records the address of a peer, in place of any it had.
    pub fn update_peer_address(&mut self, node_id: u64, address: String)
        requires
            old(self).wf(),
        ensures
            final(self).wf(),
            final(self).peer_map() == old(self).peer_map().insert(node_id, address@),
            final(self).node_id == old(self).node_id,
            final(self).needs_replication == old(self).needs_replication,
    {
        let ghost a = address@;
        self.peers.insert((node_id, address), &node_id);
        assert(self.peer_map() =~= old(self).peer_map().insert(node_id, a));
    }

    /// Forgets a peer.
    pub fn remove_peer(&mut self, node_id: u64)
        requires
            old(self).wf(),
        ensures
            final(self).wf(),
            final(self).peer_map() == old(self).peer_map().remove(node_id),
            final(self).node_id == old(self).node_id,
            final(self).needs_replication == old(self).needs_replication,
    {
        self.peers.remove(&node_id);
        assert(self.peer_map() =~= old(self).peer_map().remove(node_id));
    }

    /// A proposed addition went through: the new node's address is recorded.
    pub fn handle_successful_node_addition(&mut self, node_id: u64, address: String)
        requires
            old(self).wf(),
        ensures
            final(self).wf(),
            final(self).peer_map() == old(self).peer_map().insert(node_id, address@),
            final(self).node_id == old(self).node_id,
            final(self).needs_replication == old(self).needs_replication,
    {
        self.update_peer_address(node_id, address);
    }

    /// Updates the peers after a committed change of kind `change_code` for
    /// `node_id`: an addition records the address its context carried (nothing
    /// when the context gave none), a removal forgets the node, any other kind
    /// changes nothing. Gives whether this node itself was removed.
    pub fn update_local_peers_after_conf_change(
        &mut self,
        change_code: i32,
        node_id: u64,
        context_address: Option<String>,
    ) -> (removed_self: bool)
        requires
            old(self).wf(),
        ensures
            final(self).wf(),
            final(self).node_id == old(self).node_id,
            final(self).needs_replication == old(self).needs_replication,
            final(self).peer_map() == peers_after(old(self).peer_map(), change_code, node_id, match context_address {
                Some(a) => Some(a@),
                None => None,
            }),
            removed_self == (change_code == 1 && node_id == old(self).node_id),
    {
        if change_code == 0 {
            match context_address {
                Some(a) => self.update_peer_address(node_id, a),
                None => {},
            }
            false
        } else if change_code == 1 {
            self.remove_peer(node_id);
            node_id == self.node_id
        } else {
            false
        }
    }

    /// Applies a committed change to the peers (see
    /// [`Membership::update_local_peers_after_conf_change`]); an addition also
    /// asks for replication to the new node.
    pub fn apply_conf_change(&mut self, change_code: i32, node_id: u64, context_address: Option<String>) -> (removed_self: bool)
        requires
            old(self).wf(),
        ensures
            final(self).wf(),
            final(self).node_id == old(self).node_id,
            final(self).needs_replication == (old(self).needs_replication || change_code == 0),
            final(self).peer_map() == peers_after(old(self).peer_map(), change_code, node_id, match context_address {
                Some(a) => Some(a@),
                None => None,
            }),
            removed_self == (change_code == 1 && node_id == old(self).node_id),
    {
        let removed = self.update_local_peers_after_conf_change(change_code, node_id, context_address);
        if change_code == 0 {
            self.needs_replication = true;
        }
        removed
    }

    /// The answer to a membership change request and its effect on the peers,
    /// once the change was (or was not) proposed with outcome `proposed`. A node
    /// that is not the leader refuses, naming the leader it knows; a failed
    /// proposal is answered with its error. A proposed change is answered `Ok`:
    /// in a single-node cluster it is applied at once (an addition records the
    /// address, a removal forgets the node), and an addition records the new
    /// node's address in any case.
    pub fn conf_change_outcome(
        &mut self,
        is_leader: bool,
        leader_id: u64,
        change_type: ConfChangeType,
        node_id: u64,
        address: String,
        single_node: bool,
        proposed: Result<(), BlixardError>,
    ) -> (answer: Result<(), BlixardError>)
        requires
            old(self).wf(),
        ensures
            final(self).wf(),
            final(self).node_id == old(self).node_id,
            final(self).needs_replication == old(self).needs_replication,
            !is_leader ==> answer == Err::<(), BlixardError>(
                BlixardError::NotLeader { operation: "propose configuration change", leader_id: known_leader(leader_id) },
            ) && final(self).peer_map() == old(self).peer_map(),
            is_leader && proposed is Err ==> answer == proposed && final(self).peer_map() == old(self).peer_map(),
            is_leader && proposed is Ok ==> answer is Ok && final(self).peer_map() == (if change_type
                == ConfChangeType::AddNode {
                old(self).peer_map().insert(node_id, address@)
            } else if single_node {
                old(self).peer_map().remove(node_id)
            } else {
                old(self).peer_map()
            }),
    {
        if let Err(e) = check_can_propose(is_leader, leader_id) {
            return Err(e);
        }
        match proposed {
            Err(e) => Err(e),
            Ok(()) => {
                let code = raft_change_code(change_type);
                if single_node {
                    let _ = self.update_local_peers_after_conf_change(code, node_id, Some(address.clone()));
                }
                if change_type == ConfChangeType::AddNode {
                    let ghost before = self.peer_map();
                    self.handle_successful_node_addition(node_id, address);
                    assert(before.insert(node_id, address@).insert(node_id, address@) =~= before.insert(
                        node_id,
                        address@,
                    ));
                }
                Ok(())
            },
        }
    }

    /// Whether replication was asked for since the last call; the request is
    /// cleared by reading it.
    pub fn needs_replication_trigger(&mut self) -> (r: bool)
        ensures
            r == old(self).needs_replication,
            !final(self).needs_replication,
            final(self).peers == old(self).peers,
            final(self).node_id == old(self).node_id,
    {
        let r = self.needs_replication;
        self.needs_replication = false;
        r
    }
}

/// Removing a node right after adding it leaves the peers as removing it alone
/// would.
pub proof fn lemma_remove_undoes_add(peers: Map<u64, Seq<char>>, node_id: u64, address: Seq<char>)
    ensures
        peers_after(peers_after(peers, 0, node_id, Some(address)), 1, node_id, None) == peers_after(
            peers,
            1,
            node_id,
            None,
        ),
{
    assert(peers.insert(node_id, address).remove(node_id) =~= peers.remove(node_id));
}

} // verus!
