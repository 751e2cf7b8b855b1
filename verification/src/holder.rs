//! Identities of account holders.
//!
//! The external ledger and host identify accounts by 256-bit public keys.
//! The core only ever compares identities for equality, so it carries them
//! as four 64-bit words; the host converts its key type at the boundary.

use vstd::prelude::*;

verus! {

/// A 256-bit account identity, split into four 64-bit words
/// (word 0 holds the lowest-order bytes).
#[derive(Clone, Copy, Debug, PartialEq, Eq, Structural)]
pub struct HolderId {
    pub w0: u64,
    pub w1: u64,
    pub w2: u64,
    pub w3: u64,
}

impl HolderId {
    /// Builds an identity from its four words.
    pub fn new(w0: u64, w1: u64, w2: u64, w3: u64) -> (r: HolderId)
        ensures
            r == (HolderId { w0, w1, w2, w3 }),
    {
        HolderId { w0, w1, w2, w3 }
    }
}

} // verus!
