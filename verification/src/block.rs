//! The data model: transactions, blocks, and their mathematical views.

use crate::encoding::enc_block;
use crate::hashing::digest_of;
use vstd::prelude::*;

verus! {

/// One transfer: who sends, who receives, how much.
#[derive(Clone, Debug, PartialEq, Eq)]
pub struct Transaction {
    pub sender: String,
    pub recipient: String,
    pub amount: u64,
}

/// The mathematical value of a `Transaction`.
pub ghost struct TxView {
    pub sender: Seq<char>,
    pub recipient: Seq<char>,
    pub amount: u64,
}

impl View for Transaction {
    type V = TxView;

    open spec fn view(&self) -> TxView {
        TxView { sender: self.sender@, recipient: self.recipient@, amount: self.amount }
    }
}

impl DeepView for Transaction {
    type V = TxView;

    open spec fn deep_view(&self) -> TxView {
        self@
    }
}

impl Transaction {
    pub fn new(sender: String, recipient: String, amount: u64) -> (r: Self)
        ensures
            r@ == (TxView { sender: sender@, recipient: recipient@, amount }),
    {
        Transaction { sender, recipient, amount }
    }
}

/// One sealed block: a timestamp, the transactions it sealed, the proof that
/// sealed it, and the hash of its predecessor (the genesis marker `"1"` for
/// the first block). Immutable once constructed.
#[derive(Clone, Debug, PartialEq, Eq)]
pub struct Block {
    pub timestamp: u64,
    pub transactions: Vec<Transaction>,
    pub proof: u64,
    pub previous_hash: String,
}

/// The mathematical value of a `Block`.
#[verifier::ext_equal]
pub ghost struct BlockView {
    pub timestamp: u64,
    pub transactions: Seq<TxView>,
    pub proof: u64,
    pub previous_hash: Seq<char>,
}

impl View for Block {
    type V = BlockView;

    open spec fn view(&self) -> BlockView {
        BlockView {
            timestamp: self.timestamp,
            transactions: self.transactions.deep_view(),
            proof: self.proof,
            previous_hash: self.previous_hash@,
        }
    }
}

impl DeepView for Block {
    type V = BlockView;

    open spec fn deep_view(&self) -> BlockView {
        self@
    }
}

/// A block's content hash: the lowercase hex SHA-256 digest of its canonical
/// encoding, over all four fields. This hash is the sole linkage between
/// blocks. Opaque because chain reasoning never needs to look below it.
#[verifier::opaque]
pub open spec fn hash_of_block(b: BlockView) -> Seq<char> {
    digest_of(enc_block(b))
}

impl Block {
    /// The hash that the next block must record as `previous_hash`.
    pub fn hash(&self) -> (r: String)
        ensures
            r@ == hash_of_block(self@),
    {
        let bytes = crate::encoding::encode_block(self);
        let r = crate::hashing::digest(bytes.as_slice());
        proof {
            reveal(hash_of_block);
        }
        r
    }
}

/// Copies a transaction; the copy has the same value.
pub(crate) fn clone_transaction(t: &Transaction) -> (r: Transaction)
    ensures
        r@ == t@,
{
    Transaction {
        sender: t.sender.clone(),
        recipient: t.recipient.clone(),
        amount: t.amount,
    }
}

/// Copies a transaction list; the copy has the same values in the same order.
pub(crate) fn clone_transactions(v: &Vec<Transaction>) -> (r: Vec<Transaction>)
    ensures
        r.deep_view() == v.deep_view(),
{
    let mut r: Vec<Transaction> = Vec::new();
    let mut i: usize = 0;
    while i < v.len()
        invariant
            i <= v.len(),
            r@.len() == i as int,
            forall|j: int| 0 <= j < i ==> #[trigger] r@[j]@ == v@[j]@,
        decreases v.len() - i,
    {
        r.push(clone_transaction(&v[i]));
        i = i + 1;
    }
    proof {
        assert forall|j: int| 0 <= j < v@.len() implies r.deep_view()[j] == v.deep_view()[j] by {
            assert(r@[j]@ == v@[j]@);
        }
        assert(r.deep_view() =~= v.deep_view());
    }
    r
}

/// Copies a block; the copy has the same value.
pub(crate) fn clone_block(b: &Block) -> (r: Block)
    ensures
        r@ == b@,
{
    let r = Block {
        timestamp: b.timestamp,
        transactions: clone_transactions(&b.transactions),
        proof: b.proof,
        previous_hash: b.previous_hash.clone(),
    };
    proof {
        assert(r@ =~= b@);
    }
    r
}

/// Copies a chain of blocks; the copy has the same values in the same order.
pub(crate) fn clone_chain(c: &[Block]) -> (r: Vec<Block>)
    ensures
        r.deep_view() == c.deep_view(),
{
    let mut r: Vec<Block> = Vec::new();
    let mut i: usize = 0;
    while i < c.len()
        invariant
            i <= c.len(),
            r@.len() == i as int,
            forall|j: int| 0 <= j < i ==> #[trigger] r@[j]@ == c@[j]@,
        decreases c.len() - i,
    {
        r.push(clone_block(&c[i]));
        i = i + 1;
    }
    proof {
        assert forall|j: int| 0 <= j < c@.len() implies r.deep_view()[j] == c.deep_view()[j] by {
            assert(r@[j]@ == c@[j]@);
        }
        assert(r.deep_view() =~= c.deep_view());
    }
    r
}

} // verus!
