//! A block: one link of the chain, carrying a batch of transactions, the
//! digest of the previous block, and its own digest found by mining.

use vstd::prelude::*;
use crate::clock::now_unix_secs;
use crate::digest::{dec_digits, is_lower_hex_digit, sha256_hex, sha256_hex_of, to_decimal_string};
use crate::transaction::{Transaction, TransactionView, transaction_text};

verus! {

/// One link of the chain. A block is created with an empty `hash` and
/// `nonce` 0, then mutated in place by `mine` until its stored hash equals
/// its digest and carries the required leading zeros; afterwards it is
/// treated as immutable.
pub struct Block {
    pub index: u64,
    pub timestamp: u64,
    pub transactions: Vec<Transaction>,
    pub previous_hash: String,
    pub hash: String,
    pub nonce: u64,
}

/// The mathematical content of a block.
pub ghost struct BlockView {
    pub index: u64,
    pub timestamp: u64,
    pub transactions: Seq<TransactionView>,
    pub previous_hash: Seq<char>,
    pub hash: Seq<char>,
    pub nonce: u64,
}

impl View for Block {
    type V = BlockView;

    open spec fn view(&self) -> BlockView {
        BlockView {
            index: self.index,
            timestamp: self.timestamp,
            transactions: self.transactions@.map_values(|t: Transaction| t@),
            previous_hash: self.previous_hash@,
            hash: self.hash@,
            nonce: self.nonce,
        }
    }
}

/// The canonical text of a batch of transactions: each transaction's text in
/// sequence order.
pub open spec fn transactions_text(ts: Seq<TransactionView>) -> Seq<char>
    decreases ts.len(),
{
    if ts.len() == 0 {
        Seq::<char>::empty()
    } else {
        transactions_text(ts.drop_last()) + transaction_text(ts.last())
    }
}

/// The canonical text a block's digest is computed over: index, timestamp,
/// each transaction, previous hash, then nonce, all in this fixed order,
/// with the unsigned fields rendered in decimal.
pub open spec fn block_text(b: BlockView) -> Seq<char> {
    dec_digits(b.index as nat) + dec_digits(b.timestamp as nat) + transactions_text(b.transactions)
        + b.previous_hash + dec_digits(b.nonce as nat)
}

/// The digest a block of this content must store to be consistent.
pub open spec fn block_digest(b: BlockView) -> Seq<char> {
    sha256_hex_of(block_text(b))
}

/// `h` begins with at least `d` zero characters.
pub open spec fn has_leading_zeros(h: Seq<char>, d: nat) -> bool {
    &&& d <= h.len()
    &&& forall|i: int| 0 <= i < d ==> h[i] == '0'
}

/// The same block content with another nonce; the stored hash plays no part
/// in the digest, so this is what "the digest at nonce `n`" means.
pub open spec fn with_nonce(b: BlockView, n: u64) -> BlockView {
    BlockView {
        index: b.index,
        timestamp: b.timestamp,
        transactions: b.transactions,
        previous_hash: b.previous_hash,
        hash: b.hash,
        nonce: n,
    }
}

/// Whether the first `difficulty` characters of `h` are all '0'.
fn meets_difficulty(h: &String, difficulty: u32) -> (r: bool)
    ensures
        r == has_leading_zeros(h@, difficulty as nat),
{
    let d = difficulty as usize;
    let s = h.as_str();
    let n = s.unicode_len();
    if n < d {
        return false;
    }
    let mut i: usize = 0;
    while i < d
        invariant
            i <= d,
            d == difficulty as nat,
            d <= h@.len(),
            s@ == h@,
            forall|j: int| 0 <= j < i ==> h@[j] == '0',
        decreases d - i,
    {
        if s.get_char(i) != '0' {
            return false;
        }
        i = i + 1;
    }
    true
}

impl Block {
    /// Builds a fresh, unmined block over the given transactions: the stored
    /// hash starts empty and the nonce at 0. The timestamp is read from the
    /// wall clock, so nothing is promised of it.
    pub fn new(index: u64, transactions: Vec<Transaction>, previous_hash: String) -> (r: Block)
        ensures
            r@.index == index,
            r@.transactions == transactions@.map_values(|t: Transaction| t@),
            r@.previous_hash == previous_hash@,
            r@.hash == Seq::<char>::empty(),
            r@.nonce == 0,
    {
        let timestamp = now_unix_secs();
        Block {
            index,
            timestamp,
            transactions,
            previous_hash,
            hash: String::new(),
            nonce: 0,
        }
    }

    /// Recomputes this block's digest from its current field values: the
    /// SHA-256 hex digest of the canonical text, always 64 lowercase hex
    /// digits.
    pub fn calculate_hash(&self) -> (r: String)
        ensures
            r@ == block_digest(self@),
            r@.len() == 64,
            forall|i: int| 0 <= i < r@.len() ==> is_lower_hex_digit(#[trigger] r@[i]),
    {
        let ghost pre: Seq<char> = dec_digits(self.index as nat) + dec_digits(
            self.timestamp as nat,
        );
        let mut text = to_decimal_string(self.index);
        text.append(to_decimal_string(self.timestamp).as_str());
        proof {
            assert(text@ =~= pre + transactions_text(self@.transactions.take(0)));
        }
        let mut i: usize = 0;
        while i < self.transactions.len()
            invariant
                i <= self.transactions.len(),
                pre == dec_digits(self@.index as nat) + dec_digits(self@.timestamp as nat),
                text@ == pre + transactions_text(self@.transactions.take(i as int)),
                self@.transactions == self.transactions@.map_values(|t: Transaction| t@),
            decreases self.transactions.len() - i,
        {
            let t = &self.transactions[i];
            text.append(t.sender.as_str());
            text.append(t.recipient.as_str());
            text.append(to_decimal_string(t.amount).as_str());
            proof {
                let taken = self@.transactions.take(i as int + 1);
                assert(taken.drop_last() =~= self@.transactions.take(i as int));
                assert(taken.last() == self@.transactions[i as int]);
                assert(text@ =~= pre + transactions_text(taken));
            }
            i = i + 1;
        }
        text.append(self.previous_hash.as_str());
        text.append(to_decimal_string(self.nonce).as_str());
        proof {
            assert(self@.transactions.take(self.transactions@.len() as int) =~= self@.transactions);
            assert(text@ =~= block_text(self@));
        }
        sha256_hex(text.as_str())
    }

    /// Searches increasing nonce values until the stored hash begins with
    /// `difficulty` zero characters, recomputing the digest at each step.
    /// If the stored hash already qualifies (as an empty hash does at
    /// difficulty 0), the block is left untouched; otherwise the stored hash
    /// equals the digest of the block's final content, the nonce has grown,
    /// and every nonce tried before the final one — those strictly between
    /// the starting and the final value — yields a digest without the
    /// required zeros, so the final nonce is the first that qualifies. The
    /// search gives up only once the nonce range is exhausted. All other
    /// fields are unchanged.
    pub fn mine(&mut self, difficulty: u32)
        ensures
            final(self)@.index == old(self)@.index,
            final(self)@.timestamp == old(self)@.timestamp,
            final(self)@.transactions == old(self)@.transactions,
            final(self)@.previous_hash == old(self)@.previous_hash,
            final(self)@.nonce >= old(self)@.nonce,
            final(self)@.hash != old(self)@.hash ==> final(self)@.nonce > old(self)@.nonce,
            has_leading_zeros(final(self)@.hash, difficulty as nat) || final(self)@.nonce
                == u64::MAX,
            (final(self)@.nonce == old(self)@.nonce && final(self)@.hash == old(self)@.hash)
                || final(self)@.hash == block_digest(final(self)@),
            has_leading_zeros(old(self)@.hash, difficulty as nat) ==> (final(self)@.nonce == old(
                self,
            )@.nonce && final(self)@.hash == old(self)@.hash),
            forall|m: u64|
                old(self)@.nonce < m < final(self)@.nonce ==> !has_leading_zeros(
                    block_digest(with_nonce(final(self)@, m)),
                    difficulty as nat,
                ),
    {
        while !meets_difficulty(&self.hash, difficulty) && self.nonce < u64::MAX
            invariant
                self@.index == old(self)@.index,
                self@.timestamp == old(self)@.timestamp,
                self@.transactions == old(self)@.transactions,
                self@.previous_hash == old(self)@.previous_hash,
                self@.nonce >= old(self)@.nonce,
                self@.hash != old(self)@.hash ==> self@.nonce > old(self)@.nonce,
                (self@.nonce == old(self)@.nonce && self@.hash == old(self)@.hash)
                    || self@.hash == block_digest(self@),
                has_leading_zeros(old(self)@.hash, difficulty as nat) ==> (self@.nonce == old(
                    self,
                )@.nonce && self@.hash == old(self)@.hash),
                forall|m: u64|
                    old(self)@.nonce < m < self@.nonce ==> !has_leading_zeros(
                        block_digest(with_nonce(self@, m)),
                        difficulty as nat,
                    ),
            decreases u64::MAX - self.nonce,
        {
            let ghost prev: BlockView = self@;
            self.nonce = self.nonce + 1;
            let h = self.calculate_hash();
            self.hash = h;
            proof {
                assert forall|m: u64|
                    old(self)@.nonce < m < self@.nonce implies !has_leading_zeros(
                    block_digest(with_nonce(self@, m)),
                    difficulty as nat,
                ) by {
                    assert(block_text(with_nonce(self@, m)) == block_text(with_nonce(prev, m)));
                    if m == prev.nonce {
                        // this nonce was just tried: its digest is the hash
                        // the loop condition rejected
                        assert(prev.hash == block_digest(prev));
                        assert(block_text(with_nonce(prev, m)) == block_text(prev));
                    }
                }
            }
        }
    }
}

impl Clone for Block {
    fn clone(&self) -> (r: Block)
        ensures
            r@ == self@,
    {
        let r = Block {
            index: self.index,
            timestamp: self.timestamp,
            transactions: crate::transaction::clone_transactions(&self.transactions),
            previous_hash: self.previous_hash.clone(),
            hash: self.hash.clone(),
            nonce: self.nonce,
        };
        r
    }
}

/// Copies a sequence of blocks element for element; the copy has the same
/// mathematical content, block by block.
pub(crate) fn clone_blocks(bs: &Vec<Block>) -> (r: Vec<Block>)
    ensures
        r@.map_values(|b: Block| b@) == bs@.map_values(|b: Block| b@),
        r@.len() == bs@.len(),
{
    let mut r: Vec<Block> = Vec::new();
    let mut i: usize = 0;
    while i < bs.len()
        invariant
            i <= bs.len(),
            r@.len() == i,
            forall|j: int| 0 <= j < i ==> r@[j]@ == bs@[j]@,
        decreases bs.len() - i,
    {
        r.push(bs[i].clone());
        i = i + 1;
    }
    proof {
        assert(r@.map_values(|b: Block| b@) =~= bs@.map_values(|b: Block| b@));
    }
    r
}

} // verus!
