//! A minimal replicated ledger: an append-only chain of blocks of
//! transactions, extended through a proof-of-work puzzle and reconciled
//! against peer chains by a longest-valid-chain rule.

pub mod block;
pub mod clock;
pub mod consensus;
pub mod digits;
pub mod encoding;
pub mod hashing;
pub mod laws;
pub mod ledger;
pub mod pow;
pub mod validate;

pub use block::Block;
pub use block::Transaction;
pub use hashing::digest;
pub use ledger::Blockchain;
pub use pow::proof_of_work;
pub use pow::valid_proof;
pub use validate::is_valid;
