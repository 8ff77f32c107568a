//! The longest-valid-chain rule that reconciles a local chain against a set
//! of candidate chains fetched from peers.

use crate::block::BlockView;
use crate::validate::chain_valid;
use vstd::prelude::*;

verus! {

/// Folds the longest-chain rule over the candidates in order: a candidate
/// displaces the current pick exactly when it is strictly longer and valid,
/// so among equally long winners the first one encountered is kept.
pub open spec fn resolve_spec(local: Seq<BlockView>, cands: Seq<Seq<BlockView>>) -> Seq<BlockView>
    decreases cands.len(),
{
    if cands.len() == 0 {
        local
    } else {
        let next = if cands[0].len() > local.len() && chain_valid(cands[0]) {
            cands[0]
        } else {
            local
        };
        resolve_spec(next, cands.drop_first())
    }
}

/// The adopted chain is never shorter than the local one, and differs from it
/// only for a strictly longer, valid candidate.
pub proof fn lemma_resolve_spec_bounds(local: Seq<BlockView>, cands: Seq<Seq<BlockView>>)
    ensures
        resolve_spec(local, cands).len() >= local.len(),
        resolve_spec(local, cands) != local ==> resolve_spec(local, cands).len() > local.len()
            && chain_valid(resolve_spec(local, cands)),
    decreases cands.len(),
{
    if cands.len() > 0 {
        let next = if cands[0].len() > local.len() && chain_valid(cands[0]) {
            cands[0]
        } else {
            local
        };
        lemma_resolve_spec_bounds(next, cands.drop_first());
    }
}

} // verus!
