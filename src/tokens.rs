//! Readiness tokens: a set of up to 64 event sources, held as a bit set.
use vstd::prelude::*;

verus! {

/// The token set that every interest matches.
pub const ALL_TOKENS: u64 = 0xffff_ffff_ffff_ffff;

/// The token set that no interest matches.
pub const NO_TOKENS: u64 = 0;

/// The set holding token `id` alone.
pub fn token(id: u32) -> (r: u64)
    requires
        id < 64,
    ensures
        r == 1u64 << id,
        r != 0,
{
    let r: u64 = 1u64 << id;
    assert(1u64 << id != 0) by (bit_vector)
        requires
            id < 64,
    ;
    r
}

/// Both sets together.
pub fn union(a: u64, b: u64) -> (r: u64)
    ensures
        r == a | b,
{
    a | b
}

/// Whether the two sets share a token: a sub-operation whose interest does
/// not meet the tokens of a resume may leave that resume alone.
pub fn intersects(a: u64, b: u64) -> (r: bool)
    ensures
        r == (a & b != 0),
{
    a & b != 0
}

/// Every non-empty interest meets the full token set.
pub proof fn lemma_all_tokens_meet(a: u64)
    requires
        a != 0,
    ensures
        a & ALL_TOKENS != 0,
{
    assert(a & 0xffff_ffff_ffff_ffffu64 == a) by (bit_vector);
}

} // verus!
