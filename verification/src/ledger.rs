//! The ledger: the append-only chain of sealed blocks plus the pool of
//! pending transactions, with block creation, transaction admission and
//! conflict resolution.

use crate::block::{clone_block, clone_chain, hash_of_block, Block, BlockView, Transaction, TxView};
use crate::clock::now_millis;
use crate::consensus::{lemma_resolve_spec_bounds, resolve_spec};
use crate::validate::{
    chain_ok_at, chain_valid, is_valid, lemma_chain_valid_linked, link_ok, linked,
};
use crate::pow::valid_proof_spec;
use vstd::prelude::*;
use vstd::string::StringExecFns;

verus! {

/// The `previous_hash` of a genesis block, which has no real predecessor.
pub open spec fn genesis_marker() -> Seq<char> {
    "1"@
}

/// A node's ledger.
pub struct Blockchain {
    pub chain: Vec<Block>,
    pub current_transactions: Vec<Transaction>,
}

/// The mathematical value of a `Blockchain`.
#[verifier::ext_equal]
pub ghost struct LedgerView {
    pub chain: Seq<BlockView>,
    pub pending: Seq<TxView>,
}

impl View for Blockchain {
    type V = LedgerView;

    open spec fn view(&self) -> LedgerView {
        LedgerView {
            chain: self.chain.deep_view(),
            pending: self.current_transactions.deep_view(),
        }
    }
}

impl Blockchain {
    /// The chain is never empty: index 0 is the genesis block.
    pub open spec fn wf(&self) -> bool {
        self@.chain.len() >= 1
    }

    /// Constructs a ledger holding only the genesis block (proof 100, no
    /// transactions, previous hash `"1"`) and an empty pending pool.
    pub fn new() -> (r: Self)
        ensures
            r.wf(),
            r@.chain.len() == 1,
            r@.chain[0].previous_hash == genesis_marker(),
            r@.chain[0].proof == 100,
            r@.chain[0].transactions == Seq::<TxView>::empty(),
            r@.pending == Seq::<TxView>::empty(),
            linked(r@.chain),
            chain_valid(r@.chain),
    {
        let genesis = Block {
            timestamp: now_millis(),
            transactions: Vec::new(),
            proof: 100,
            previous_hash: <String as StringExecFns>::from_str("1"),
        };
        let mut chain: Vec<Block> = Vec::new();
        chain.push(genesis);
        let r = Blockchain { chain, current_transactions: Vec::new() };
        proof {
            assert(r@.chain[0].transactions =~= Seq::<TxView>::empty());
            assert(r@.pending =~= Seq::<TxView>::empty());
        }
        r
    }

    /// A snapshot copy of the full chain.
    pub fn chain(&self) -> (r: Vec<Block>)
        ensures
            r.deep_view() == self@.chain,
    {
        let s = self.chain.as_slice();
        let r = clone_chain(s);
        proof {
            assert(s.deep_view() =~= self@.chain);
        }
        r
    }

    /// The proof of the last block in the chain; the anchor of the next
    /// puzzle.
    pub fn last_proof(&self) -> (r: u64)
        requires
            self.wf(),
        ensures
            r == self@.chain.last().proof,
    {
        self.chain[self.chain.len() - 1].proof
    }

    /// Admits a transaction into the pending pool and returns the index of
    /// the block that will eventually contain it: the index of the next block
    /// to be sealed, `chain.len()` at call time.
    pub fn new_transaction(&mut self, transaction: Transaction) -> (r: usize)
        ensures
            final(self)@.chain == old(self)@.chain,
            final(self)@.pending == old(self)@.pending.push(transaction@),
            r == old(self)@.chain.len(),
    {
        let ghost tv = transaction@;
        self.current_transactions.push(transaction);
        proof {
            assert forall|j: int| 0 <= j < self.current_transactions@.len() implies
                self@.pending[j] == old(self)@.pending.push(tv)[j] by {
                if j < old(self).current_transactions@.len() {
                    assert(self.current_transactions@[j] == old(self).current_transactions@[j]);
                }
            }
            assert(self@.pending =~= old(self)@.pending.push(tv));
        }
        self.chain.len()
    }

    /// Seals all currently pending transactions into a new block, chained to
    /// the previous last block by its hash, appends it to the chain, and
    /// returns a copy of it. Sealing preserves hash linkage, and preserves
    /// full validity whenever the given proof solves the puzzle anchored at
    /// the previous last proof.
    pub fn new_block(&mut self, proof: u64) -> (b: Block)
        requires
            old(self).wf(),
        ensures
            final(self).wf(),
            b@.transactions == old(self)@.pending,
            b@.proof == proof,
            b@.previous_hash == hash_of_block(old(self)@.chain.last()),
            final(self)@.chain == old(self)@.chain.push(b@),
            final(self)@.pending == Seq::<TxView>::empty(),
            linked(old(self)@.chain) ==> linked(final(self)@.chain),
            chain_valid(old(self)@.chain) && valid_proof_spec(
                old(self)@.chain.last().proof,
                proof,
            ) ==> chain_valid(final(self)@.chain),
    {
        let last_index = self.chain.len() - 1;
        let previous_hash = self.chain[last_index].hash();
        proof {
            assert(old(self)@.chain.last() == self.chain@[last_index as int]@);
        }
        let timestamp = now_millis();
        let mut transactions: Vec<Transaction> = Vec::new();
        core::mem::swap(&mut transactions, &mut self.current_transactions);
        let block = Block { timestamp, transactions, proof, previous_hash };
        let copy = clone_block(&block);
        let ghost oc = old(self)@.chain;
        let ghost bv = block@;
        self.chain.push(copy);
        proof {
            assert forall|j: int| 0 <= j < self.chain@.len() implies
                self@.chain[j] == oc.push(bv)[j] by {
                if j < oc.len() {
                    assert(self.chain@[j] == old(self).chain@[j]);
                }
            }
            assert(self@.chain =~= oc.push(bv));
            assert(self@.pending =~= Seq::<TxView>::empty());
            let nc = oc.push(bv);
            assert(bv.previous_hash == hash_of_block(oc.last()));
            if linked(oc) {
                assert forall|i: int| 1 <= i < nc.len() implies #[trigger] link_ok(nc, i) by {
                    if i < oc.len() {
                        assert(link_ok(oc, i));
                        assert(nc[i] == oc[i] && nc[i - 1] == oc[i - 1]);
                    } else {
                        assert(nc[i] == bv && nc[i - 1] == oc.last());
                    }
                }
            }
            if chain_valid(oc) && valid_proof_spec(oc.last().proof, proof) {
                assert forall|i: int| 1 <= i < nc.len() implies #[trigger] chain_ok_at(nc, i) by {
                    if i < oc.len() {
                        assert(chain_ok_at(oc, i));
                        assert(nc[i] == oc[i] && nc[i - 1] == oc[i - 1]);
                    } else {
                        assert(nc[i] == bv && nc[i - 1] == oc.last());
                    }
                }
            }
        }
        block
    }

    /// Reconciles the local chain against candidate chains from peers by the
    /// longest-valid-chain rule: the chain is replaced by the first candidate
    /// reaching the greatest length among those strictly longer than the
    /// local chain and structurally valid; otherwise it is unchanged. The
    /// pending pool is untouched. Returns a copy of the resulting chain,
    /// which is never shorter than the local one.
    pub fn resolve_conflicts(&mut self, chains: &[Vec<Block>]) -> (r: Vec<Block>)
        requires
            old(self).wf(),
        ensures
            final(self).wf(),
            final(self)@.chain == resolve_spec(old(self)@.chain, chains.deep_view()),
            final(self)@.pending == old(self)@.pending,
            r.deep_view() == final(self)@.chain,
            final(self)@.chain.len() >= old(self)@.chain.len(),
            final(self)@.chain != old(self)@.chain ==> final(self)@.chain.len() > old(
                self,
            )@.chain.len() && chain_valid(final(self)@.chain),
            linked(old(self)@.chain) ==> linked(final(self)@.chain),
    {
        let ghost orig = old(self)@.chain;
        let ghost cviews = chains.deep_view();
        let mut longest: usize = self.chain.len();
        let mut best: Option<usize> = None;
        let mut j: usize = 0;
        proof {
            assert(cviews.skip(0) =~= cviews);
        }
        while j < chains.len()
            invariant
                j <= chains.len(),
                *self == *old(self),
                old(self).wf(),
                cviews == chains.deep_view(),
                longest as int == pick_view(orig, cviews, best).len(),
                best matches Some(k) ==> k < chains@.len(),
                resolve_spec(orig, cviews) == resolve_spec(
                    pick_view(orig, cviews, best),
                    cviews.skip(j as int),
                ),
            decreases chains.len() - j,
        {
            let cand: &Vec<Block> = &chains[j];
            let cand_slice: &[Block] = cand.as_slice();
            proof {
                assert(cand_slice.deep_view() =~= cviews[j as int]);
            }
            let ghost pick_pre = pick_view(orig, cviews, best);
            let longer = cand_slice.len() > longest;
            let adopt = longer && is_valid(cand_slice);
            if adopt {
                longest = cand_slice.len();
                best = Some(j);
            }
            proof {
                assert(cviews.skip(j as int)[0] == cviews[j as int]);
                assert(cviews.skip(j as int).drop_first() =~= cviews.skip(j as int + 1));
                assert(pick_view(orig, cviews, best) == if cviews[j as int].len() > pick_pre.len()
                    && chain_valid(cviews[j as int]) {
                    cviews[j as int]
                } else {
                    pick_pre
                });
            }
            j = j + 1;
        }
        proof {
            assert(cviews.skip(chains@.len() as int) =~= Seq::<Seq<BlockView>>::empty());
            lemma_resolve_spec_bounds(orig, cviews);
        }
        match best {
            Some(k) => {
                let winner: &[Block] = chains[k].as_slice();
                let adopted = clone_chain(winner);
                proof {
                    assert(winner.deep_view() =~= cviews[k as int]);
                }
                self.chain = adopted;
            },
            None => {},
        }
        proof {
            assert(self@.chain =~= resolve_spec(orig, cviews));
            if linked(orig) && self@.chain != orig {
                lemma_chain_valid_linked(self@.chain);
            }
        }
        let s = self.chain.as_slice();
        let r = clone_chain(s);
        proof {
            assert(s.deep_view() =~= self@.chain);
        }
        r
    }
}

/// The chain the fold has picked so far: the local one until a candidate has
/// displaced it.
spec fn pick_view(
    orig: Seq<BlockView>,
    cviews: Seq<Seq<BlockView>>,
    best: Option<usize>,
) -> Seq<BlockView> {
    match best {
        Option::None => orig,
        Option::Some(k) => cviews[k as int],
    }
}

impl Default for Blockchain {
    /// The same ledger as `Blockchain::new`.
    fn default() -> (r: Self)
        ensures
            r.wf(),
            r@.chain.len() == 1,
            r@.chain[0].previous_hash == genesis_marker(),
            r@.chain[0].proof == 100,
            r@.chain[0].transactions == Seq::<TxView>::empty(),
            r@.pending == Seq::<TxView>::empty(),
    {
        Blockchain::new()
    }
}

} // verus!
