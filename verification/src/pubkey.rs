//! Account identities: 256-bit public keys.

use vstd::prelude::*;

verus! {

/// A 32-byte account identity, held as four 64-bit words in little-endian
/// order (word 0 covers bytes 0..8 of the key, and so on).
#[derive(Clone, Copy, Debug, PartialEq, Eq, Structural, Hash)]
pub struct Pubkey {
    pub w0: u64,
    pub w1: u64,
    pub w2: u64,
    pub w3: u64,
}

impl Pubkey {
    /// Builds a key from its four little-endian words.
    pub fn new(w0: u64, w1: u64, w2: u64, w3: u64) -> (r: Pubkey)
        ensures
            r == (Pubkey { w0, w1, w2, w3 }),
    {
        Pubkey { w0, w1, w2, w3 }
    }
}

impl Default for Pubkey {
    /// The all-zero key.
    fn default() -> (r: Pubkey)
        ensures
            r == (Pubkey { w0: 0u64, w1: 0u64, w2: 0u64, w3: 0u64 }),
    {
        Pubkey { w0: 0, w1: 0, w2: 0, w3: 0 }
    }
}

} // verus!
