use pow_chain::block::Block;
use pow_chain::chain::Blockchain;
use pow_chain::digest::to_decimal_string;
use pow_chain::transaction::Transaction;
use sha2::{Digest, Sha256};

fn tx(sender: &str, recipient: &str, amount: u64) -> Transaction {
    Transaction::new(sender.to_string(), recipient.to_string(), amount)
}

#[test]
fn decimal_rendering() {
    assert_eq!(to_decimal_string(0), "0");
    assert_eq!(to_decimal_string(7), "7");
    assert_eq!(to_decimal_string(1234567890), "1234567890");
    assert_eq!(to_decimal_string(u64::MAX), "18446744073709551615");
}

#[test]
fn digest_matches_sha2_reference() {
    let block = Block {
        index: 7,
        timestamp: 1700000000,
        transactions: vec![tx("Alice", "Bob", 100), tx("Bob", "Charlie", 50)],
        previous_hash: "prevhash".to_string(),
        hash: String::new(),
        nonce: 42,
    };
    let mut hasher = Sha256::new();
    hasher.update("7");
    hasher.update("1700000000");
    hasher.update("Alice");
    hasher.update("Bob");
    hasher.update("100");
    hasher.update("Bob");
    hasher.update("Charlie");
    hasher.update("50");
    hasher.update("prevhash");
    hasher.update("42");
    let expected = format!("{:x}", hasher.finalize());
    assert_eq!(block.calculate_hash(), expected);
}

#[test]
fn mined_block_digest_matches() {
    let mut block = Block::new(1, vec![tx("Alice", "Bob", 100)], "prev".to_string());
    block.mine(3);
    assert!(block.hash.starts_with("000"));
    assert_eq!(block.calculate_hash(), block.hash);
    assert_eq!(block.hash.len(), 64);
    assert!(block.nonce >= 1);
    assert!(block
        .hash
        .chars()
        .all(|c| c.is_ascii_digit() || ('a'..='f').contains(&c)));
}

#[test]
fn genesis_block_shape() {
    let bc = Blockchain::new(4);
    assert_eq!(bc.difficulty, 4);
    assert_eq!(bc.chain.len(), 1);
    let genesis = &bc.chain[0];
    assert_eq!(genesis.index, 0);
    assert!(genesis.transactions.is_empty());
    assert_eq!(genesis.previous_hash, "0");
    assert!(genesis.hash.starts_with("0"));
    assert_eq!(genesis.calculate_hash(), genesis.hash);
    assert_eq!(genesis.hash.len(), 64);
    assert!(genesis.nonce >= 1);
}

#[test]
fn chain_valid_after_each_add() {
    let mut bc = Blockchain::new(2);
    assert!(bc.is_valid());
    bc.add_block(vec![tx("Alice", "Bob", 100)]);
    assert!(bc.is_valid());
    bc.add_block(vec![tx("Bob", "Charlie", 50), tx("Charlie", "Alice", 25)]);
    assert!(bc.is_valid());
    assert_eq!(bc.chain.len(), 3);
    assert_eq!(bc.chain[1].previous_hash, bc.chain[0].hash);
    assert_eq!(bc.chain[2].previous_hash, bc.chain[1].hash);
    assert_eq!(bc.chain[2].index, 2);
}

#[test]
fn tampered_amount_detected() {
    let mut bc = Blockchain::new(2);
    bc.add_block(vec![tx("Alice", "Bob", 100)]);
    bc.add_block(vec![tx("Bob", "Charlie", 50)]);
    assert!(bc.is_valid());
    bc.chain[1].transactions[0].amount = 999;
    assert!(!bc.is_valid());
}

#[test]
fn tampered_previous_hash_detected() {
    let mut bc = Blockchain::new(2);
    bc.add_block(vec![tx("Alice", "Bob", 100)]);
    bc.add_block(vec![tx("Bob", "Charlie", 50)]);
    assert!(bc.is_valid());
    bc.chain[1].previous_hash = "deadbeef".to_string();
    // keep every block's own hash consistent with its content, so only the
    // linkage is broken
    let recomputed = bc.chain[1].calculate_hash();
    bc.chain[1].hash = recomputed;
    assert_eq!(bc.chain[1].calculate_hash(), bc.chain[1].hash);
    assert_eq!(bc.chain[0].calculate_hash(), bc.chain[0].hash);
    assert_eq!(bc.chain[2].calculate_hash(), bc.chain[2].hash);
    assert!(!bc.is_valid());
}

#[test]
fn difficulty_zero_leaves_block_unmined() {
    let mut bc = Blockchain::new(0);
    assert!(bc.is_valid());
    bc.add_block(vec![tx("Alice", "Bob", 100)]);
    let added = &bc.chain[1];
    assert_eq!(added.hash, "");
    assert_eq!(added.nonce, 0);
    assert!(!bc.is_valid());
}
