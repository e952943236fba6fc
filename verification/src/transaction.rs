//! A transaction: an immutable value record of a transfer between two named
//! parties.

use vstd::prelude::*;
use crate::digest::dec_digits;

verus! {

/// A transfer of `amount` from `sender` to `recipient`. No intrinsic
/// validity constraints: `sender == recipient` is permitted, and the amount
/// is unsigned by construction.
pub struct Transaction {
    pub sender: String,
    pub recipient: String,
    pub amount: u64,
}

/// The mathematical content of a transaction: the two party names as
/// character sequences and the amount.
pub ghost struct TransactionView {
    pub sender: Seq<char>,
    pub recipient: Seq<char>,
    pub amount: u64,
}

impl View for Transaction {
    type V = TransactionView;

    open spec fn view(&self) -> TransactionView {
        TransactionView {
            sender: self.sender@,
            recipient: self.recipient@,
            amount: self.amount,
        }
    }
}

/// The canonical text of one transaction as it feeds into a block digest:
/// sender, recipient, then the amount in decimal, concatenated.
pub open spec fn transaction_text(t: TransactionView) -> Seq<char> {
    t.sender + t.recipient + dec_digits(t.amount as nat)
}

impl Transaction {
    /// Builds the record from its three fields.
    pub fn new(sender: String, recipient: String, amount: u64) -> (r: Transaction)
        ensures
            r@.sender == sender@,
            r@.recipient == recipient@,
            r@.amount == amount,
    {
        Transaction { sender, recipient, amount }
    }
}

impl Clone for Transaction {
    fn clone(&self) -> (r: Transaction)
        ensures
            r == *self,
    {
        Transaction {
            sender: self.sender.clone(),
            recipient: self.recipient.clone(),
            amount: self.amount,
        }
    }
}

/// Copies a batch of transactions element for element.
pub(crate) fn clone_transactions(ts: &Vec<Transaction>) -> (r: Vec<Transaction>)
    ensures
        r@ == ts@,
{
    let mut r: Vec<Transaction> = Vec::new();
    let mut i: usize = 0;
    while i < ts.len()
        invariant
            i <= ts.len(),
            r@ == ts@.take(i as int),
        decreases ts.len() - i,
    {
        r.push(ts[i].clone());
        proof {
            assert(r@ =~= ts@.take(i as int + 1));
        }
        i = i + 1;
    }
    proof {
        assert(r@ =~= ts@);
    }
    r
}

} // verus!
