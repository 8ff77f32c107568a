//! Decimal rendering of unsigned integers as ASCII digit bytes.
//!
//! The canonical block encoding and the proof-of-work message both write
//! numbers in decimal, so the digit sequence is fixed here once, as a spec
//! function with a verified executable counterpart.

use vstd::prelude::*;

verus! {

/// The ASCII byte of the last decimal digit of `n`.
pub open spec fn dec_digit(n: nat) -> u8 {
    (48 + (n % 10)) as u8
}

/// The decimal digit bytes of `n`, most significant first, no leading zeros
/// (a single `b'0'` for zero itself).
pub open spec fn dec_of(n: nat) -> Seq<u8>
    decreases n,
{
    if n < 10 {
        seq![dec_digit(n)]
    } else {
        dec_of(n / 10).push(dec_digit(n))
    }
}

/// Renders `n` in decimal, most significant digit first.
pub fn u64_to_dec(n: u64) -> (r: Vec<u8>)
    ensures
        r@ == dec_of(n as nat),
{
    let mut digits: Vec<u8> = Vec::new();
    let mut m: u64 = n;
    proof {
        assert(dec_of(m as nat) + digits@ =~= dec_of(n as nat));
    }
    while m >= 10
        invariant
            dec_of(m as nat) + digits@ == dec_of(n as nat),
        decreases m,
    {
        let d: u8 = 48 + (m % 10) as u8;
        let ghost pre = digits@;
        digits.insert(0, d);
        proof {
            assert(digits@ =~= seq![d] + pre);
            assert(dec_of((m / 10) as nat) + digits@ =~= dec_of(m as nat) + pre);
        }
        m = m / 10;
    }
    let d: u8 = 48 + (m % 10) as u8;
    let ghost pre = digits@;
    digits.insert(0, d);
    proof {
        assert(digits@ =~= dec_of(m as nat) + pre);
    }
    digits
}

} // verus!
