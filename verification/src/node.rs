//! A node: a consensus participant owning one blockchain and the indices of
//! its registered peers in an arena of nodes, with the longest-valid-chain
//! adoption rule.

use vstd::prelude::*;
use crate::block::{BlockView, block_digest, clone_blocks, has_leading_zeros};
use crate::chain::{Blockchain, chain_valid};
use crate::transaction::Transaction;

verus! {

/// A consensus participant. Peers are addressed by index into an external
/// arena of nodes; registration is one-directional and the peer set only
/// grows.
pub struct Node {
    pub blockchain: Blockchain,
    pub peers: Vec<usize>,
}

/// The longest-valid-chain fold: starting from `own` as the candidate, each
/// peer chain in order becomes the candidate exactly when it is valid and
/// strictly longer than the candidate so far. Equal lengths never replace
/// the candidate, so the first chain of a given maximal length wins.
pub open spec fn best_chain(own: Seq<BlockView>, peers: Seq<Seq<BlockView>>) -> Seq<BlockView>
    decreases peers.len(),
{
    if peers.len() == 0 {
        own
    } else {
        let next = if chain_valid(peers[0]) && peers[0].len() > own.len() {
            peers[0]
        } else {
            own
        };
        best_chain(next, peers.drop_first())
    }
}

/// The chains of the peers with the given indices, in that order, read from
/// the arena.
pub open spec fn peer_chains(ids: Seq<usize>, nodes: Seq<Node>) -> Seq<Seq<BlockView>> {
    ids.map_values(|id: usize| nodes[id as int].blockchain.blocks())
}

/// The candidate a consensus scan holds after some peers were examined:
/// the node's own chain until a peer was picked, that peer's chain after.
spec fn scan_candidate(picked: Option<usize>, own: Seq<BlockView>, nodes: Seq<Node>) -> Seq<
    BlockView,
> {
    match picked {
        Option::None => own,
        Option::Some(id) => nodes[id as int].blockchain.blocks(),
    }
}

/// First-encountered maximum wins: when two valid peer chains of the same
/// length both exceed the node's own, the fold adopts the first of them.
pub proof fn lemma_consensus_first_longest_wins(
    own: Seq<BlockView>,
    first: Seq<BlockView>,
    second: Seq<BlockView>,
)
    requires
        chain_valid(first),
        chain_valid(second),
        first.len() == second.len(),
        first.len() > own.len(),
    ensures
        best_chain(own, seq![first, second]) == first,
{
    let peers = seq![first, second];
    assert(peers[0] == first);
    assert(peers.drop_first() =~= seq![second]);
    assert(best_chain(own, peers) == best_chain(first, seq![second]));
    assert(seq![second][0] == second);
    assert(seq![second].drop_first() =~= Seq::<Seq<BlockView>>::empty());
    assert(best_chain(first, seq![second]) == best_chain(
        first,
        Seq::<Seq<BlockView>>::empty(),
    ));
    assert(best_chain(first, Seq::<Seq<BlockView>>::empty()) == first);
}

/// Consensus is a no-op when no peer chain is strictly longer than the
/// node's own: the fold returns the node's own chain unchanged.
pub proof fn lemma_consensus_no_longer_peer(own: Seq<BlockView>, peers: Seq<Seq<BlockView>>)
    requires
        forall|i: int| 0 <= i < peers.len() ==> (#[trigger] peers[i]).len() <= own.len(),
    ensures
        best_chain(own, peers) == own,
    decreases peers.len(),
{
    if peers.len() > 0 {
        assert(peers[0].len() <= own.len());
        let rest = peers.drop_first();
        assert forall|i: int| 0 <= i < rest.len() implies (#[trigger] rest[i]).len()
            <= own.len() by {
            assert(rest[i] == peers[i + 1]);
        }
        lemma_consensus_no_longer_peer(own, rest);
    }
}

/// Consensus never adopts an invalid chain: the fold returns either the
/// node's own chain or a peer chain that is valid and strictly longer than
/// the node's own.
pub proof fn lemma_consensus_adopts_only_valid(own: Seq<BlockView>, peers: Seq<Seq<BlockView>>)
    ensures
        best_chain(own, peers) == own || exists|i: int|
            0 <= i < peers.len() && best_chain(own, peers) == #[trigger] peers[i] && chain_valid(
                peers[i],
            ) && peers[i].len() > own.len(),
    decreases peers.len(),
{
    if peers.len() > 0 {
        let rest = peers.drop_first();
        let next = if chain_valid(peers[0]) && peers[0].len() > own.len() {
            peers[0]
        } else {
            own
        };
        lemma_consensus_adopts_only_valid(next, rest);
        let r = best_chain(own, peers);
        assert(r == best_chain(next, rest));
        if r == next {
            if next != own {
                assert(r == peers[0] && chain_valid(peers[0]) && peers[0].len() > own.len());
            }
        } else {
            let j = choose|j: int|
                0 <= j < rest.len() && best_chain(next, rest) == #[trigger] rest[j] && chain_valid(
                    rest[j],
                ) && rest[j].len() > next.len();
            assert(rest[j] == peers[j + 1]);
            assert(next.len() >= own.len());
            assert(0 <= j + 1 < peers.len() && r == peers[j + 1] && chain_valid(peers[j + 1])
                && peers[j + 1].len() > own.len());
        }
    }
}

/// Copies a list of peer indices.
fn clone_ids(v: &Vec<usize>) -> (r: Vec<usize>)
    ensures
        r@ == v@,
{
    let mut r: Vec<usize> = Vec::new();
    let mut i: usize = 0;
    while i < v.len()
        invariant
            i <= v.len(),
            r@ == v@.take(i as int),
        decreases v.len() - i,
    {
        r.push(v[i]);
        proof {
            assert(r@ =~= v@.take(i as int + 1));
        }
        i = i + 1;
    }
    proof {
        assert(r@ =~= v@);
    }
    r
}

impl Node {
    /// Creates a node owning a fresh chain of the given difficulty, with no
    /// peers registered.
    pub fn new(difficulty: u32) -> (r: Node)
        ensures
            r.blockchain.difficulty == difficulty,
            r.blockchain.blocks().len() == 1,
            r.blockchain.blocks()[0].index == 0,
            r.blockchain.blocks()[0].transactions.len() == 0,
            r.blockchain.blocks()[0].previous_hash == seq!['0'],
            r.blockchain.blocks()[0].hash == block_digest(r.blockchain.blocks()[0]),
            chain_valid(r.blockchain.blocks()),
            r.peers@ == Seq::<usize>::empty(),
    {
        Node { blockchain: Blockchain::new(difficulty), peers: Vec::new() }
    }

    /// Mines a block over the given transactions and appends it to the
    /// owned chain; same contract as the chain's own append.
    pub fn add_block(&mut self, transactions: Vec<Transaction>)
        requires
            old(self).blockchain.blocks().len() >= 1,
            old(self).blockchain.blocks().last().index < u64::MAX,
        ensures
            final(self).peers@ == old(self).peers@,
            final(self).blockchain.difficulty == old(self).blockchain.difficulty,
            final(self).blockchain.blocks().len() == old(self).blockchain.blocks().len() + 1,
            final(self).blockchain.blocks().drop_last() == old(self).blockchain.blocks(),
            ({
                let b = final(self).blockchain.blocks().last();
                &&& b.index == old(self).blockchain.blocks().last().index + 1
                &&& b.transactions == transactions@.map_values(|t: Transaction| t@)
                &&& b.previous_hash == old(self).blockchain.blocks().last().hash
                &&& (old(self).blockchain.difficulty >= 1 ==> b.hash == block_digest(b))
                &&& (has_leading_zeros(b.hash, old(self).blockchain.difficulty as nat) || b.nonce
                    == u64::MAX)
            }),
            old(self).blockchain.difficulty >= 1 && chain_valid(old(self).blockchain.blocks())
                ==> chain_valid(final(self).blockchain.blocks()),
    {
        self.blockchain.add_block(transactions);
    }

    /// Reports whether the owned chain has integrity.
    pub fn is_valid(&self) -> (r: bool)
        ensures
            r == chain_valid(self.blockchain.blocks()),
    {
        self.blockchain.is_valid()
    }

    /// Registers a one-directional awareness of the peer at the given arena
    /// index; the peer is not required to reciprocate.
    pub fn add_other_node(&mut self, peer: usize)
        ensures
            final(self).peers@ == old(self).peers@.push(peer),
            final(self).blockchain.blocks() == old(self).blockchain.blocks(),
            final(self).blockchain.difficulty == old(self).blockchain.difficulty,
    {
        self.peers.push(peer);
    }

    /// Examines each registered peer once, in registration order, over the
    /// given arena of nodes, and replaces the owned chain by the
    /// longest-valid-chain fold over the peers' chains: a peer's chain is
    /// adopted exactly when it is valid and strictly longer than the best
    /// candidate so far.
    pub fn consensus(&mut self, nodes: &Vec<Node>)
        requires
            forall|k: int|
                0 <= k < old(self).peers@.len() ==> (#[trigger] old(self).peers@[k] as int)
                    < nodes@.len(),
        ensures
            final(self).peers@ == old(self).peers@,
            final(self).blockchain.difficulty == old(self).blockchain.difficulty,
            final(self).blockchain.blocks() == best_chain(
                old(self).blockchain.blocks(),
                peer_chains(old(self).peers@, nodes@),
            ),
            chain_valid(old(self).blockchain.blocks()) ==> chain_valid(
                final(self).blockchain.blocks(),
            ),
    {
        let ghost own0: Seq<BlockView> = self.blockchain.blocks();
        let ghost all: Seq<Seq<BlockView>> = peer_chains(self.peers@, nodes@);
        let mut picked: Option<usize> = None;
        let mut best_len: usize = self.blockchain.chain.len();
        let n = self.peers.len();
        let mut i: usize = 0;
        proof {
            assert(all.skip(0) =~= all);
        }
        while i < n
            invariant
                *self == *old(self),
                n == self.peers@.len(),
                i <= n,
                own0 == self.blockchain.blocks(),
                all == peer_chains(self.peers@, nodes@),
                all.len() == n,
                forall|k: int|
                    0 <= k < self.peers@.len() ==> (#[trigger] self.peers@[k] as int)
                        < nodes@.len(),
                best_len == scan_candidate(picked, own0, nodes@).len(),
                best_chain(own0, all) == best_chain(
                    scan_candidate(picked, own0, nodes@),
                    all.skip(i as int),
                ),
                picked is Some ==> (picked->0 as int) < nodes@.len(),
            decreases n - i,
        {
            let id = self.peers[i];
            let peer = &nodes[id];
            let valid = peer.is_valid();
            let plen = peer.blockchain.chain.len();
            proof {
                assert(all.skip(i as int).drop_first() =~= all.skip(i as int + 1));
                assert(all.skip(i as int)[0] == all[i as int]);
                assert(all[i as int] == nodes@[id as int].blockchain.blocks());
            }
            if valid && plen > best_len {
                picked = Some(id);
                best_len = plen;
            }
            i = i + 1;
        }
        proof {
            assert(all.skip(n as int) =~= Seq::<Seq<BlockView>>::empty());
            lemma_consensus_adopts_only_valid(own0, all);
        }
        if let Some(id) = picked {
            let adopted = clone_blocks(&nodes[id].blockchain.chain);
            self.blockchain.chain = adopted;
            proof {
                assert(self.blockchain.blocks() =~= scan_candidate(picked, own0, nodes@));
            }
        }
    }
}

impl Clone for Node {
    fn clone(&self) -> (r: Node)
        ensures
            r.blockchain.blocks() == self.blockchain.blocks(),
            r.blockchain.difficulty == self.blockchain.difficulty,
            r.peers@ == self.peers@,
    {
        Node { blockchain: self.blockchain.clone(), peers: clone_ids(&self.peers) }
    }
}

} // verus!
