use pow_chain::chain::Blockchain;
use pow_chain::node::Node;
use pow_chain::transaction::Transaction;

fn tx(sender: &str, recipient: &str, amount: u64) -> Transaction {
    Transaction::new(sender.to_string(), recipient.to_string(), amount)
}

fn chain_hashes(bc: &Blockchain) -> Vec<String> {
    let mut hashes = Vec::new();
    for block in &bc.chain {
        hashes.push(block.hash.clone());
    }
    hashes
}

#[test]
fn add_other_node_records_peers_in_order() {
    let mut node = Node::new(1);
    assert!(node.peers.is_empty());
    node.add_other_node(2);
    node.add_other_node(1);
    assert_eq!(node.peers, vec![2, 1]);
}

#[test]
fn consensus_adopts_first_longest() {
    let mut a = Node::new(1);
    a.add_block(vec![tx("Alice", "Bob", 100)]);
    assert_eq!(a.blockchain.chain.len(), 2);

    let mut b = Node::new(1);
    b.add_block(vec![tx("Alice", "Bob", 100)]);
    b.add_block(vec![tx("Bob", "Charlie", 50)]);
    let mut c = Node::new(1);
    c.add_block(vec![tx("Alice", "Bob", 7)]);
    c.add_block(vec![tx("Bob", "Charlie", 8)]);
    assert_eq!(b.blockchain.chain.len(), 3);
    assert_eq!(c.blockchain.chain.len(), 3);
    assert!(b.is_valid());
    assert!(c.is_valid());

    // a registers b then c; both are valid, longer, and of equal length:
    // the first encountered wins
    a.add_other_node(1);
    a.add_other_node(2);
    let arena = vec![a.clone(), b.clone(), c.clone()];
    a.consensus(&arena);

    assert_eq!(a.blockchain.chain.len(), 3);
    assert_eq!(chain_hashes(&a.blockchain), chain_hashes(&b.blockchain));
    assert_ne!(chain_hashes(&a.blockchain), chain_hashes(&c.blockchain));
}

#[test]
fn consensus_noop_when_no_longer_peer() {
    let mut a = Node::new(1);
    a.add_block(vec![tx("Alice", "Bob", 100)]);
    a.add_block(vec![tx("Bob", "Charlie", 50)]);
    assert_eq!(a.blockchain.chain.len(), 3);
    let before = chain_hashes(&a.blockchain);

    let mut b = Node::new(1);
    b.add_block(vec![tx("Alice", "Bob", 1)]);
    let mut c = Node::new(1);
    c.add_block(vec![tx("Alice", "Bob", 2)]);
    c.add_block(vec![tx("Bob", "Charlie", 3)]);
    assert!(b.is_valid() && c.is_valid());
    assert!(b.blockchain.chain.len() <= 3 && c.blockchain.chain.len() <= 3);

    a.add_other_node(1);
    a.add_other_node(2);
    let arena = vec![a.clone(), b.clone(), c.clone()];
    a.consensus(&arena);

    assert_eq!(a.blockchain.chain.len(), 3);
    assert_eq!(chain_hashes(&a.blockchain), before);
}

#[test]
fn consensus_rejects_invalid_longer_chain() {
    let mut a = Node::new(1);
    a.add_block(vec![tx("Alice", "Bob", 100)]);
    let before = chain_hashes(&a.blockchain);

    let mut b = Node::new(1);
    b.add_block(vec![tx("Alice", "Bob", 1)]);
    b.add_block(vec![tx("Bob", "Charlie", 2)]);
    b.add_block(vec![tx("Charlie", "Alice", 3)]);
    assert_eq!(b.blockchain.chain.len(), 4);
    // tamper with a historical block of the longer chain
    b.blockchain.chain[1].transactions[0].amount = 999;
    assert!(!b.is_valid());

    a.add_other_node(1);
    let arena = vec![a.clone(), b.clone()];
    a.consensus(&arena);

    assert_eq!(a.blockchain.chain.len(), 2);
    assert_eq!(chain_hashes(&a.blockchain), before);
}

#[test]
fn end_to_end_three_nodes() {
    let difficulty = 4;
    let mut node1 = Node::new(difficulty);
    let mut node2 = Node::new(difficulty);
    let mut node3 = Node::new(difficulty);

    node1.add_other_node(1);
    node1.add_other_node(2);
    node2.add_other_node(0);
    node2.add_other_node(2);
    node3.add_other_node(0);
    node3.add_other_node(1);

    let transaction1 = tx("Alice", "Bob", 100);
    let transaction2 = tx("Bob", "Charlie", 50);

    node1.add_block(vec![transaction1.clone()]);
    node2.add_block(vec![transaction1.clone()]);
    node3.add_block(vec![transaction1.clone(), transaction2.clone()]);

    let arena = vec![node1.clone(), node2.clone(), node3.clone()];
    node1.consensus(&arena);
    node2.consensus(&arena);
    node3.consensus(&arena);

    // every chain already has length 2 and no peer is strictly longer, so
    // each node keeps its own chain
    assert_eq!(node1.blockchain.chain.len(), 2);
    assert_eq!(node2.blockchain.chain.len(), 2);
    assert_eq!(node3.blockchain.chain.len(), 2);
    assert!(node1.is_valid() && node2.is_valid() && node3.is_valid());
    assert_eq!(chain_hashes(&node1.blockchain), chain_hashes(&arena[0].blockchain));
}
