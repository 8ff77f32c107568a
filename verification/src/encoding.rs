//! The canonical serialized form of blocks and transactions.
//!
//! Both block hashing and any wire representation must agree on one stable
//! byte encoding, so it is fixed here as an explicit pure function: numbers
//! in decimal, strings as UTF-8 with a decimal byte-length prefix, fields in
//! a fixed order with single-byte separators.

use crate::block::{Block, BlockView, Transaction, TxView};
use crate::digits::{dec_of, u64_to_dec};
use vstd::prelude::*;
use vstd::string::StrSliceExecFns;
use vstd::string::StringSliceAdditionalSpecFns;
use vstd::utf8::encode_utf8;

verus! {

/// A string field: the decimal byte length of its UTF-8 form, `':'`, then
/// the UTF-8 bytes themselves.
pub open spec fn enc_str(s: Seq<char>) -> Seq<u8> {
    dec_of(encode_utf8(s).len()) + seq![58u8] + encode_utf8(s)
}

/// A transaction: sender, recipient, then the amount in decimal, ended by
/// `';'`.
pub open spec fn enc_tx(t: TxView) -> Seq<u8> {
    enc_str(t.sender) + enc_str(t.recipient) + dec_of(t.amount as nat) + seq![59u8]
}

/// A transaction list, in order.
pub open spec fn enc_txs(ts: Seq<TxView>) -> Seq<u8>
    decreases ts.len(),
{
    if ts.len() == 0 {
        Seq::empty()
    } else {
        enc_tx(ts[0]) + enc_txs(ts.drop_first())
    }
}

/// A whole block: timestamp, transactions, proof and previous hash, in that
/// order, separated by `'|'`.
pub open spec fn enc_block(b: BlockView) -> Seq<u8> {
    dec_of(b.timestamp as nat) + seq![124u8] + enc_txs(b.transactions) + seq![124u8] + dec_of(
        b.proof as nat,
    ) + seq![124u8] + enc_str(b.previous_hash)
}

pub proof fn lemma_enc_txs_snoc(ts: Seq<TxView>, x: TxView)
    ensures
        enc_txs(ts.push(x)) == enc_txs(ts) + enc_tx(x),
    decreases ts.len(),
{
    if ts.len() == 0 {
        assert(ts.push(x).drop_first() =~= Seq::<TxView>::empty());
        assert(enc_txs(Seq::<TxView>::empty()) == Seq::<u8>::empty());
        assert(ts.push(x)[0] == x);
        assert(enc_txs(ts.push(x)) == enc_tx(x) + Seq::<u8>::empty());
        assert(enc_txs(ts.push(x)) =~= enc_txs(ts) + enc_tx(x));
    } else {
        assert(ts.push(x).drop_first() =~= ts.drop_first().push(x));
        lemma_enc_txs_snoc(ts.drop_first(), x);
        assert(enc_txs(ts.push(x)) =~= enc_txs(ts) + enc_tx(x));
    }
}

/// Appends the encoding of one string field.
fn append_str(out: &mut Vec<u8>, s: &str)
    ensures
        final(out)@ == old(out)@ + enc_str(s@),
{
    let ghost pre = out@;
    let mut bs = s.as_bytes_vec();
    let mut len_digits = u64_to_dec(bs.len() as u64);
    out.append(&mut len_digits);
    out.push(58);
    out.append(&mut bs);
    proof {
        assert(out@ =~= pre + enc_str(s@));
    }
}

/// Appends the encoding of one transaction.
fn append_tx(out: &mut Vec<u8>, t: &Transaction)
    ensures
        final(out)@ == old(out)@ + enc_tx(t@),
{
    let ghost pre = out@;
    append_str(out, t.sender.as_str());
    append_str(out, t.recipient.as_str());
    let mut amount_digits = u64_to_dec(t.amount);
    out.append(&mut amount_digits);
    out.push(59);
    proof {
        assert(out@ =~= pre + enc_tx(t@));
    }
}

/// Renders the canonical encoding of a block.
pub fn encode_block(b: &Block) -> (r: Vec<u8>)
    ensures
        r@ == enc_block(b@),
{
    let mut out = u64_to_dec(b.timestamp);
    out.push(124);
    let ghost head = out@;
    let mut i: usize = 0;
    while i < b.transactions.len()
        invariant
            i <= b.transactions.len(),
            out@ == head + enc_txs(b@.transactions.take(i as int)),
            head == dec_of(b@.timestamp as nat) + seq![124u8],
        decreases b.transactions.len() - i,
    {
        let ghost pre_txs = b@.transactions.take(i as int);
        append_tx(&mut out, &b.transactions[i]);
        proof {
            lemma_enc_txs_snoc(pre_txs, b@.transactions[i as int]);
            assert(b@.transactions.take(i + 1) =~= pre_txs.push(b@.transactions[i as int]));
            assert(out@ =~= head + enc_txs(b@.transactions.take(i + 1)));
        }
        i = i + 1;
    }
    proof {
        assert(b@.transactions.take(b.transactions@.len() as int) =~= b@.transactions);
    }
    out.push(124);
    let mut proof_digits = u64_to_dec(b.proof);
    out.append(&mut proof_digits);
    out.push(124);
    append_str(&mut out, b.previous_hash.as_str());
    proof {
        assert(out@ =~= enc_block(b@));
    }
    out
}

} // verus!
