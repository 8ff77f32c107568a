use bile_beans::{digest, proof_of_work, valid_proof};
use sha2::Digest as _;

fn reference_digest(last_proof: u64, proof: u64) -> String {
    let message = format!("{last_proof}{proof}");
    hex::encode(sha2::Sha256::digest(message.as_bytes()))
}

#[test]
fn accepted_pairs_have_digest_prefix_0000() {
    let proof = proof_of_work(100).expect("search budget must suffice");
    assert!(valid_proof(100, proof));
    assert!(reference_digest(100, proof).starts_with("0000"));
}

#[test]
fn rejected_pairs_lack_digest_prefix_0000() {
    let mut q: u64 = 0;
    while valid_proof(100, q) {
        q += 1;
    }
    assert!(!reference_digest(100, q).starts_with("0000"));
}

#[test]
fn found_proof_is_the_least_valid_one() {
    let proof = proof_of_work(7).expect("search budget must suffice");
    assert!(valid_proof(7, proof));
    for q in 0..proof {
        assert!(!valid_proof(7, q));
    }
}

#[test]
fn digest_matches_sha256_hex_of_known_input() {
    assert_eq!(
        digest(b"abc"),
        "ba7816bf8f01cfea414140de5dae2223b00361a396177a9cb410ff61f20015ad"
    );
    assert_eq!(
        digest(b""),
        "e3b0c44298fc1c149afbf4c8996fb92427ae41e4649b934ca495991b7852b855"
    );
}
