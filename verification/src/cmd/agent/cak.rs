//! Proving that a card is the expected one: it signs a challenge with the key
//! that needs no PIN, and the signature is checked against the key that the
//! operator named.
use crate::crypto::random_bytes;
use vstd::prelude::*;

verus! {

/// The length of a challenge.
pub const CHALLENGE_LEN: usize = 32;

/// Draws a challenge. Each attempt gets its own, so that an old answer is of
/// no use.
pub fn challenge() -> (r: Result<Vec<u8>, String>)
    ensures
        r is Ok ==> r->Ok_0@.len() == CHALLENGE_LEN,
{
    random_bytes(CHALLENGE_LEN)
}

/// Whether the card is the expected one: whatever goes wrong, it is not.
pub fn authenticate(outcome: &Result<bool, String>) -> (r: bool)
    ensures
        r <==> outcome is Ok && outcome->Ok_0,
{
    match outcome {
        Ok(verified) => *verified,
        Err(_) => false,
    }
}

} // verus!
