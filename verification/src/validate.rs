//! Structural validation of a chain of blocks.

use crate::block::{hash_of_block, Block, BlockView};
use crate::pow::{valid_proof, valid_proof_spec};
use vstd::prelude::*;

verus! {

/// The block at index `i` records the hash of its predecessor.
pub open spec fn link_ok(c: Seq<BlockView>, i: int) -> bool {
    c[i].previous_hash == hash_of_block(c[i - 1])
}

/// The proof at index `i` solves the puzzle anchored at its predecessor's
/// proof.
pub open spec fn proof_ok(c: Seq<BlockView>, i: int) -> bool {
    valid_proof_spec(c[i - 1].proof, c[i].proof)
}

/// Hash linkage alone: every non-genesis block records the hash of its
/// immediate predecessor.
pub open spec fn linked(c: Seq<BlockView>) -> bool {
    forall|i: int| 1 <= i < c.len() ==> #[trigger] link_ok(c, i)
}

/// Both checks at index `i`: hash linkage and puzzle validity.
pub open spec fn chain_ok_at(c: Seq<BlockView>, i: int) -> bool {
    link_ok(c, i) && proof_ok(c, i)
}

/// Structural validity: hash linkage, and puzzle validity of every adjacent
/// proof pair. Says nothing of transaction content or timestamps.
pub open spec fn chain_valid(c: Seq<BlockView>) -> bool {
    forall|i: int| 1 <= i < c.len() ==> #[trigger] chain_ok_at(c, i)
}

pub proof fn lemma_chain_valid_linked(c: Seq<BlockView>)
    ensures
        chain_valid(c) ==> linked(c),
{
    if chain_valid(c) {
        assert forall|i: int| 1 <= i < c.len() implies #[trigger] link_ok(c, i) by {
            assert(chain_ok_at(c, i));
        }
    }
}

/// Checks every adjacent pair of `chain` for hash linkage and puzzle
/// validity; chains of length 0 or 1 are trivially valid.
pub fn is_valid(chain: &[Block]) -> (r: bool)
    ensures
        r == chain_valid(chain.deep_view()),
{
    let ghost c = chain.deep_view();
    if chain.len() <= 1 {
        return true;
    }
    let mut i: usize = 1;
    while i < chain.len()
        invariant
            1 <= i <= chain.len(),
            c == chain.deep_view(),
            forall|j: int| 1 <= j < i ==> #[trigger] chain_ok_at(c, j),
        decreases chain.len() - i,
    {
        let h = chain[i - 1].hash();
        if !(chain[i].previous_hash == h) {
            proof {
                assert(!link_ok(c, i as int));
                assert(!chain_ok_at(c, i as int));
            }
            return false;
        }
        if !valid_proof(chain[i - 1].proof, chain[i].proof) {
            proof {
                assert(!proof_ok(c, i as int));
                assert(!chain_ok_at(c, i as int));
            }
            return false;
        }
        proof {
            assert(link_ok(c, i as int));
            assert(proof_ok(c, i as int));
            assert(chain_ok_at(c, i as int));
        }
        i = i + 1;
    }
    true
}

} // verus!
