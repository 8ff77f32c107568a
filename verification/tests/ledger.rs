use bile_beans::{proof_of_work, Blockchain, Transaction};

fn mine(ledger: &mut Blockchain) {
    let proof = proof_of_work(ledger.last_proof()).expect("search budget must suffice");
    ledger.new_block(proof);
}

#[test]
fn fresh_ledger_holds_only_genesis() {
    let ledger = Blockchain::new();
    let chain = ledger.chain();
    assert_eq!(chain.len(), 1);
    assert_eq!(chain[0].previous_hash, "1");
    assert_eq!(chain[0].proof, 100);
    assert!(chain[0].transactions.is_empty());
}

#[test]
fn default_ledger_matches_new() {
    let ledger = Blockchain::default();
    let chain = ledger.chain();
    assert_eq!(chain.len(), 1);
    assert_eq!(chain[0].previous_hash, "1");
    assert_eq!(chain[0].proof, 100);
}

#[test]
fn new_transaction_returns_index_of_next_block() {
    let mut ledger = Blockchain::new();
    let tx = Transaction::new("A".to_string(), "B".to_string(), 10);
    let index = ledger.new_transaction(tx);
    assert_eq!(index, 1);
}

#[test]
fn mined_block_contains_the_pending_transaction() {
    let mut ledger = Blockchain::new();
    let tx = Transaction::new("A".to_string(), "B".to_string(), 10);
    assert_eq!(ledger.new_transaction(tx.clone()), 1);
    let proof = proof_of_work(100).expect("search budget must suffice");
    let block = ledger.new_block(proof);
    assert_eq!(block.transactions.len(), 1);
    assert_eq!(block.transactions[0], tx);
    assert_eq!(ledger.chain().len(), 2);
}

#[test]
fn sealing_drains_the_pending_pool_in_order() {
    let mut ledger = Blockchain::new();
    let txs = vec![
        Transaction::new("A".to_string(), "B".to_string(), 1),
        Transaction::new("B".to_string(), "C".to_string(), 2),
        Transaction::new("C".to_string(), "A".to_string(), 3),
    ];
    for tx in &txs {
        ledger.new_transaction(tx.clone());
    }
    let proof = proof_of_work(ledger.last_proof()).expect("search budget must suffice");
    let block = ledger.new_block(proof);
    assert_eq!(block.transactions, txs);
    assert!(ledger.current_transactions.is_empty());
    let again = ledger.new_block(0);
    assert!(again.transactions.is_empty());
}

#[test]
fn chain_keeps_hash_linkage() {
    let mut ledger = Blockchain::new();
    mine(&mut ledger);
    mine(&mut ledger);
    mine(&mut ledger);
    let chain = ledger.chain();
    assert_eq!(chain.len(), 4);
    for i in 1..chain.len() {
        assert_eq!(chain[i].previous_hash, chain[i - 1].hash());
    }
}

#[test]
fn last_proof_is_proof_of_last_block() {
    let mut ledger = Blockchain::new();
    assert_eq!(ledger.last_proof(), 100);
    let proof = proof_of_work(100).expect("search budget must suffice");
    ledger.new_block(proof);
    assert_eq!(ledger.last_proof(), proof);
}
