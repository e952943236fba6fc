//! The blockchain: an ordered sequence of blocks rooted at a fixed genesis
//! block, with chain-wide validity checking and block append.

use vstd::prelude::*;
use crate::block::{Block, BlockView, block_digest, clone_blocks, has_leading_zeros};
use crate::transaction::Transaction;

verus! {

/// The mathematical content of a sequence of blocks, in order.
pub open spec fn chain_view(c: Seq<Block>) -> Seq<BlockView> {
    c.map_values(|b: Block| b@)
}

/// Chain integrity: every block stores exactly the digest of its own
/// current content, and every block after the first names the previous
/// block's stored hash. Proof-of-work conformance of historical blocks is
/// deliberately not part of this predicate.
pub open spec fn chain_valid(c: Seq<BlockView>) -> bool {
    &&& forall|i: int|
        0 <= i < c.len() ==> (#[trigger] c[i]).hash == block_digest(c[i])
    &&& forall|i: int|
        1 <= i < c.len() ==> (#[trigger] c[i]).previous_hash == c[i - 1].hash
}

/// Appending a block that stores its own digest and names the current
/// tail's hash keeps a valid chain valid. This is why a chain built solely
/// by construction and sequential appends at a positive difficulty always
/// passes the validity check.
pub proof fn lemma_push_preserves_validity(c: Seq<BlockView>, b: BlockView)
    requires
        chain_valid(c),
        b.hash == block_digest(b),
        c.len() >= 1 ==> b.previous_hash == c.last().hash,
    ensures
        chain_valid(c.push(b)),
{
    let c2 = c.push(b);
    assert forall|i: int| 0 <= i < c2.len() implies (#[trigger] c2[i]).hash == block_digest(
        c2[i],
    ) by {
        if i < c.len() {
            assert(c2[i] == c[i]);
        } else {
            assert(c2[i] == b);
        }
    }
    assert forall|i: int| 1 <= i < c2.len() implies (#[trigger] c2[i]).previous_hash == c2[i
        - 1].hash by {
        if i < c.len() {
            assert(c2[i] == c[i]);
            assert(c2[i - 1] == c[i - 1]);
        } else {
            assert(c2[i] == b);
            assert(c2[i - 1] == c[i - 1]);
            assert(c[i - 1] == c.last());
        }
    }
}

/// A block whose stored hash differs from its recomputed digest makes the
/// whole chain invalid.
pub proof fn lemma_digest_mismatch_invalidates(c: Seq<BlockView>, i: int)
    requires
        0 <= i < c.len(),
        c[i].hash != block_digest(c[i]),
    ensures
        !chain_valid(c),
{
}

/// A broken link between consecutive blocks makes the whole chain invalid,
/// whether or not each block's own stored hash matches its content.
pub proof fn lemma_broken_link_invalidates(c: Seq<BlockView>, i: int)
    requires
        1 <= i < c.len(),
        c[i].previous_hash != c[i - 1].hash,
    ensures
        !chain_valid(c),
{
}

/// An ordered sequence of blocks starting with a genesis block, plus the
/// working difficulty every appended block is mined at.
pub struct Blockchain {
    pub chain: Vec<Block>,
    pub difficulty: u32,
}

impl Blockchain {
    /// The chain's mathematical content.
    pub open spec fn blocks(&self) -> Seq<BlockView> {
        chain_view(self.chain@)
    }

    /// Builds the fixed first block of every chain: index 0, no
    /// transactions, previous hash "0", mined at difficulty 1 whatever the
    /// chain's working difficulty.
    pub fn create_genesis_block() -> (r: Block)
        ensures
            r@.index == 0,
            r@.transactions.len() == 0,
            r@.previous_hash == seq!['0'],
            r@.hash == block_digest(r@),
            has_leading_zeros(r@.hash, 1) || r@.nonce == u64::MAX,
            r@.nonce >= 1,
    {
        let sentinel = String::from_str("0");
        proof {
            reveal_strlit("0");
            assert(sentinel@ =~= seq!['0']);
        }
        let mut b = Block::new(0, Vec::new(), sentinel);
        b.mine(1);
        b
    }

    /// Creates a chain holding exactly the genesis block; the given
    /// difficulty governs all later appends.
    pub fn new(difficulty: u32) -> (r: Blockchain)
        ensures
            r.difficulty == difficulty,
            r.blocks().len() == 1,
            r.blocks()[0].index == 0,
            r.blocks()[0].transactions.len() == 0,
            r.blocks()[0].previous_hash == seq!['0'],
            r.blocks()[0].hash == block_digest(r.blocks()[0]),
            has_leading_zeros(r.blocks()[0].hash, 1) || r.blocks()[0].nonce == u64::MAX,
            r.blocks()[0].nonce >= 1,
            chain_valid(r.blocks()),
    {
        let g = Blockchain::create_genesis_block();
        let mut chain: Vec<Block> = Vec::new();
        chain.push(g);
        Blockchain { chain, difficulty }
    }

    /// Builds a block over the given transactions at the next index, linked
    /// to the current tail's stored hash, mines it at the working
    /// difficulty, and appends it. A chain that was valid stays valid
    /// whenever the difficulty is positive; at difficulty 0 the new block
    /// keeps its initial empty hash, exactly as mining finds it already
    /// qualifying.
    pub fn add_block(&mut self, transactions: Vec<Transaction>)
        requires
            old(self).blocks().len() >= 1,
            old(self).blocks().last().index < u64::MAX,
        ensures
            final(self).difficulty == old(self).difficulty,
            final(self).blocks().len() == old(self).blocks().len() + 1,
            final(self).blocks().drop_last() == old(self).blocks(),
            ({
                let b = final(self).blocks().last();
                &&& b.index == old(self).blocks().last().index + 1
                &&& b.transactions == transactions@.map_values(|t: Transaction| t@)
                &&& b.previous_hash == old(self).blocks().last().hash
                &&& (old(self).difficulty >= 1 ==> b.hash == block_digest(b))
                &&& (has_leading_zeros(b.hash, old(self).difficulty as nat) || b.nonce
                    == u64::MAX)
                &&& (old(self).difficulty == 0 ==> b.hash == Seq::<char>::empty() && b.nonce
                    == 0)
            }),
            old(self).difficulty >= 1 && chain_valid(old(self).blocks()) ==> chain_valid(
                final(self).blocks(),
            ),
    {
        let n = self.chain.len();
        let tail_hash = self.chain[n - 1].hash.clone();
        let next_index = self.chain[n - 1].index + 1;
        let mut new_block = Block::new(next_index, transactions, tail_hash);
        new_block.mine(self.difficulty);
        let ghost nbv: BlockView = new_block@;
        self.chain.push(new_block);
        proof {
            assert(self.blocks() =~= old(self).blocks().push(nbv));
            assert(self.blocks().drop_last() =~= old(self).blocks());
            if self.difficulty >= 1 {
                // an empty hash cannot carry a leading zero, so mining
                // recomputed the digest at least once
                assert(nbv.hash == block_digest(nbv));
                if chain_valid(old(self).blocks()) {
                    lemma_push_preserves_validity(old(self).blocks(), nbv);
                }
            }
        }
    }

    /// Scans the whole chain once and reports whether it has integrity:
    /// every stored hash equals the recomputed digest and every consecutive
    /// pair is properly linked.
    pub fn is_valid(&self) -> (r: bool)
        ensures
            r == chain_valid(self.blocks()),
    {
        let n = self.chain.len();
        let mut i: usize = 0;
        while i < n
            invariant
                n == self.chain.len(),
                i <= n,
                forall|j: int|
                    0 <= j < i ==> (#[trigger] self.blocks()[j]).hash == block_digest(
                        self.blocks()[j],
                    ),
                forall|j: int|
                    1 <= j < i ==> (#[trigger] self.blocks()[j]).previous_hash == self.blocks()[j
                        - 1].hash,
            decreases n - i,
        {
            let computed = self.chain[i].calculate_hash();
            if self.chain[i].hash != computed {
                proof {
                    lemma_digest_mismatch_invalidates(self.blocks(), i as int);
                }
                return false;
            }
            if i >= 1 {
                if self.chain[i].previous_hash != self.chain[i - 1].hash {
                    proof {
                        lemma_broken_link_invalidates(self.blocks(), i as int);
                    }
                    return false;
                }
            }
            i = i + 1;
        }
        true
    }
}

impl Clone for Blockchain {
    fn clone(&self) -> (r: Blockchain)
        ensures
            r.blocks() == self.blocks(),
            r.difficulty == self.difficulty,
    {
        Blockchain { chain: clone_blocks(&self.chain), difficulty: self.difficulty }
    }
}

} // verus!
