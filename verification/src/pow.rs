//! The proof-of-work puzzle: searching for, and checking, proof values.
//!
//! A pair `(last_proof, proof)` is accepted exactly when the hex SHA-256
//! digest of the two proofs written in decimal, one after the other, begins
//! with four `'0'` characters.

use crate::digits::{dec_of, u64_to_dec};
use crate::hashing::{digest_of, hex_of, lemma_hex_of_len, sha256_digest, sha256_of};
use vstd::prelude::*;

verus! {

/// The bytes whose digest decides the puzzle: the decimal rendering of
/// `last_proof` followed by that of `proof`.
pub open spec fn pow_message(last_proof: u64, proof: u64) -> Seq<u8> {
    dec_of(last_proof as nat) + dec_of(proof as nat)
}

/// Acceptance of a proof pair: the hex digest of the puzzle message starts
/// with four `'0'` characters. Opaque because callers only compare outcomes.
#[verifier::opaque]
pub open spec fn valid_proof_spec(last_proof: u64, proof: u64) -> bool {
    let h = digest_of(pow_message(last_proof, proof));
    h.len() >= 4 && h[0] == '0' && h[1] == '0' && h[2] == '0' && h[3] == '0'
}

/// The first four hex digits of a rendered digest are `'0'` exactly when its
/// first two bytes are zero.
proof fn lemma_digest_prefix(d: Seq<u8>)
    requires
        d.len() >= 2,
    ensures
        hex_of(d).len() >= 4,
        (hex_of(d)[0] == '0' && hex_of(d)[1] == '0' && hex_of(d)[2] == '0' && hex_of(d)[3] == '0')
            <==> (d[0] == 0 && d[1] == 0),
{
    lemma_hex_of_len(d);
    let t = d.drop_first();
    assert(t[0] == d[1]);
    assert(hex_of(d)[2] == hex_of(t)[0]);
    assert(hex_of(d)[3] == hex_of(t)[1]);
    assert((d[0] / 16 == 0 && d[0] % 16 == 0) <==> d[0] == 0) by (nonlinear_arith);
    assert((d[1] / 16 == 0 && d[1] % 16 == 0) <==> d[1] == 0) by (nonlinear_arith);
}

/// Checks one candidate proof against the puzzle.
pub fn valid_proof(last_proof: u64, proof: u64) -> (r: bool)
    ensures
        r == valid_proof_spec(last_proof, proof),
{
    let mut msg = u64_to_dec(last_proof);
    let mut rest = u64_to_dec(proof);
    msg.append(&mut rest);
    let d = sha256_digest(msg.as_slice());
    proof {
        reveal(valid_proof_spec);
        lemma_digest_prefix(sha256_of(msg@));
    }
    d[0] == 0 && d[1] == 0
}

/// How many candidates the proof search will try before giving up; far
/// beyond the roughly 65536 attempts the puzzle difficulty calls for, so a
/// `None` means a runaway, not a hard input.
pub const PROOF_SEARCH_LIMIT: u64 = 100_000_000;

/// Searches candidate proofs from 0 upward and returns the first one the
/// puzzle accepts, or `None` once the search budget is spent.
pub fn proof_of_work(last_proof: u64) -> (r: Option<u64>)
    ensures
        r matches Some(p) ==> valid_proof_spec(last_proof, p) && (forall|q: u64|
            q < p ==> !valid_proof_spec(last_proof, q)),
        r is None ==> forall|q: u64| q < PROOF_SEARCH_LIMIT ==> !valid_proof_spec(last_proof, q),
{
    let mut p: u64 = 0;
    while p < PROOF_SEARCH_LIMIT
        invariant
            forall|q: u64| q < p ==> !valid_proof_spec(last_proof, q),
        decreases PROOF_SEARCH_LIMIT - p,
    {
        if valid_proof(last_proof, p) {
            return Some(p);
        }
        p = p + 1;
    }
    None
}

} // verus!
