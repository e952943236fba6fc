//! A minimal proof-of-work blockchain: hash-linked blocks over batches of
//! transactions, a chain-validity predicate that detects tampering and
//! linkage breaks, and a longest-valid-chain consensus rule across nodes.

pub mod block;
pub mod chain;
pub mod clock;
pub mod digest;
pub mod node;
pub mod transaction;
