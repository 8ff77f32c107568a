//! Tamper-evidence of validated chains.
//!
//! Validity inspects `previous_hash` and `proof` of every adjacent pair, so
//! corrupting either field of a block in a valid chain is caught whenever the
//! corruption itself breaks the pair check; a corrupted field that still
//! passes its own pair check could only be caught through the change of the
//! block's digest, of which nothing is assumed here.

use crate::block::BlockView;
use crate::pow::valid_proof_spec;
use crate::validate::{chain_ok_at, chain_valid, link_ok, proof_ok};
use vstd::prelude::*;

verus! {

/// Corrupting the `previous_hash` of any non-genesis block of a valid chain
/// leaves an invalid chain.
pub proof fn lemma_tampered_prev_hash_invalid(c: Seq<BlockView>, i: int, h: Seq<char>)
    requires
        chain_valid(c),
        1 <= i < c.len(),
        h != c[i].previous_hash,
    ensures
        !chain_valid(c.update(i, (BlockView { previous_hash: h, ..c[i] }))),
{
    let t = c.update(i, (BlockView { previous_hash: h, ..c[i] }));
    assert(chain_ok_at(c, i));
    assert(t[i - 1] == c[i - 1]);
    assert(!link_ok(t, i));
    assert(!chain_ok_at(t, i));
}

/// Replacing the `proof` of any non-genesis block of a valid chain by one
/// that fails the puzzle anchored at its predecessor leaves an invalid chain.
pub proof fn lemma_tampered_proof_invalid(c: Seq<BlockView>, i: int, p: u64)
    requires
        chain_valid(c),
        1 <= i < c.len(),
        !valid_proof_spec(c[i - 1].proof, p),
    ensures
        !chain_valid(c.update(i, (BlockView { proof: p, ..c[i] }))),
{
    let t = c.update(i, (BlockView { proof: p, ..c[i] }));
    assert(chain_ok_at(c, i));
    assert(t[i - 1] == c[i - 1]);
    assert(!proof_ok(t, i));
    assert(!chain_ok_at(t, i));
}

} // verus!
