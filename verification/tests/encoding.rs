use bile_beans::{Block, Transaction};
use sha2::Digest as _;

// The canonical form: `timestamp | transactions | proof | previous_hash`,
// numbers in decimal, each string as `<byte length>:<utf-8 bytes>`, each
// transaction as `<sender><recipient><amount>;`.
#[test]
fn block_hash_is_sha256_hex_of_the_canonical_encoding() {
    let block = Block {
        timestamp: 5,
        transactions: vec![Transaction::new("A".to_string(), "B".to_string(), 10)],
        proof: 7,
        previous_hash: "1".to_string(),
    };
    let encoding = "5|1:A1:B10;|7|1:1";
    let expected = hex::encode(sha2::Sha256::digest(encoding.as_bytes()));
    assert_eq!(block.hash(), expected);
}

#[test]
fn block_hash_changes_with_any_field() {
    let block = Block {
        timestamp: 5,
        transactions: vec![],
        proof: 7,
        previous_hash: "1".to_string(),
    };
    let mut other = block.clone();
    assert_eq!(block.hash(), other.hash());
    other.timestamp = 6;
    assert_ne!(block.hash(), other.hash());
    let mut other = block.clone();
    other.proof = 8;
    assert_ne!(block.hash(), other.hash());
    let mut other = block.clone();
    other.previous_hash = "2".to_string();
    assert_ne!(block.hash(), other.hash());
    let mut other = block.clone();
    other
        .transactions
        .push(Transaction::new("A".to_string(), "B".to_string(), 1));
    assert_ne!(block.hash(), other.hash());
}

#[test]
fn multibyte_strings_are_length_prefixed_in_bytes() {
    let block = Block {
        timestamp: 0,
        transactions: vec![Transaction::new("é".to_string(), "".to_string(), 0)],
        proof: 0,
        previous_hash: "".to_string(),
    };
    let mut encoding: Vec<u8> = Vec::new();
    encoding.extend_from_slice(b"0|2:");
    encoding.extend_from_slice("é".as_bytes());
    encoding.extend_from_slice(b"0:0;|0|0:");
    let expected = hex::encode(sha2::Sha256::digest(&encoding));
    assert_eq!(block.hash(), expected);
}
