//! Opaque identities of banks, accounts, groups, mints and oracles.
use vstd::prelude::*;

verus! {

/// A 256-bit identity. Two keys name the same thing exactly when they are
/// equal; nothing else is read from a key.
#[derive(Clone, Copy, Debug, PartialEq, Eq, Hash, Structural)]
pub struct Pubkey {
    pub hi: u128,
    pub lo: u128,
}

impl Pubkey {
    /// The key made of the two given halves.
    pub fn new(hi: u128, lo: u128) -> (key: Pubkey)
        ensures
            key == (Pubkey { hi, lo }),
    {
        Pubkey { hi, lo }
    }

    /// The all-zero key, which names nothing.
    pub open spec fn spec_default() -> Pubkey {
        Pubkey { hi: 0, lo: 0 }
    }

    /// Whether this is the all-zero key.
    pub fn is_default(&self) -> (r: bool)
        ensures
            r == (*self == Pubkey::spec_default()),
    {
        self.hi == 0 && self.lo == 0
    }
}

impl Default for Pubkey {
    fn default() -> (key: Pubkey)
        ensures
            key == Pubkey::spec_default(),
    {
        Pubkey { hi: 0, lo: 0 }
    }
}

} // verus!
