use bile_beans::{is_valid, proof_of_work, Blockchain};

fn grown_ledger(extra_blocks: usize) -> Blockchain {
    let mut ledger = Blockchain::new();
    for _ in 0..extra_blocks {
        let proof = proof_of_work(ledger.last_proof()).expect("search budget must suffice");
        ledger.new_block(proof);
    }
    ledger
}

#[test]
fn sequentially_grown_chain_is_valid() {
    let ledger = grown_ledger(3);
    assert!(is_valid(&ledger.chain()));
}

#[test]
fn short_chains_are_trivially_valid() {
    assert!(is_valid(&[]));
    assert!(is_valid(&Blockchain::new().chain()));
}

#[test]
fn tampered_previous_hash_is_detected() {
    let ledger = grown_ledger(4);
    let mut chain = ledger.chain();
    chain[3].previous_hash = "0000tampered".to_string();
    assert!(!is_valid(&chain));
}

#[test]
fn tampered_proof_is_detected() {
    let ledger = grown_ledger(2);
    let mut chain = ledger.chain();
    let anchor = chain[1].proof;
    let mut bad: u64 = 0;
    while bile_beans::valid_proof(anchor, bad) {
        bad += 1;
    }
    let last = chain.len() - 1;
    chain[last].proof = bad;
    assert!(!is_valid(&chain));
}

#[test]
fn resolve_adopts_the_longer_valid_chain() {
    let mut three = grown_ledger(2);
    let five = grown_ledger(4);
    let resolved = three.resolve_conflicts(&[five.chain()]);
    assert_eq!(resolved.len(), 5);
    assert_eq!(resolved, five.chain());
    assert_eq!(three.chain(), five.chain());
}

#[test]
fn resolve_keeps_the_longer_local_chain() {
    let three = grown_ledger(2);
    let mut five = grown_ledger(4);
    let before = five.chain();
    let resolved = five.resolve_conflicts(&[three.chain()]);
    assert_eq!(resolved, before);
    assert_eq!(five.chain(), before);
}

#[test]
fn resolve_ignores_equal_length_candidates() {
    let mut local = grown_ledger(2);
    let peer = grown_ledger(2);
    let before = local.chain();
    let resolved = local.resolve_conflicts(&[peer.chain()]);
    assert_eq!(resolved, before);
}

#[test]
fn resolve_rejects_a_longer_corrupted_chain() {
    let mut local = grown_ledger(2);
    let peer = grown_ledger(4);
    let mut corrupted = peer.chain();
    corrupted[3].previous_hash = "corrupted".to_string();
    assert_eq!(corrupted.len(), 5);
    assert!(!is_valid(&corrupted));
    let before = local.chain();
    let resolved = local.resolve_conflicts(&[corrupted]);
    assert_eq!(resolved, before);
}

#[test]
fn resolve_keeps_the_first_of_equally_long_winners() {
    let mut local = Blockchain::new();
    let first = grown_ledger(2);
    let second = grown_ledger(2);
    assert_ne!(first.chain(), second.chain());
    let resolved = local.resolve_conflicts(&[first.chain(), second.chain()]);
    assert_eq!(resolved, first.chain());
}

#[test]
fn resolve_leaves_the_pending_pool_untouched() {
    let mut local = grown_ledger(1);
    local.new_transaction(bile_beans::Transaction::new(
        "A".to_string(),
        "B".to_string(),
        10,
    ));
    let longer = grown_ledger(3);
    local.resolve_conflicts(&[longer.chain()]);
    assert_eq!(local.current_transactions.len(), 1);
}
