//! Account identities: 32-byte account hashes compared by value.

use vstd::prelude::*;

verus! {

/// A bidder, owner or payout recipient, identified by the 32-byte account
/// hash the host ledger derives from its public key.
#[derive(Clone, Copy, Debug)]
pub struct AccountId {
    pub bytes: [u8; 32],
}

impl View for AccountId {
    type V = Seq<u8>;

    open spec fn view(&self) -> Seq<u8> {
        self.bytes@
    }
}

impl AccountId {
    /// Two identities are the same account exactly when their hashes agree.
    pub fn same(&self, other: &AccountId) -> (r: bool)
        ensures
            r == (self@ == other@),
    {
        let mut i: usize = 0;
        while i < 32
            invariant
                i <= 32,
                forall|j: int| 0 <= j < i ==> self.bytes@[j] == other.bytes@[j],
            decreases 32 - i,
        {
            if self.bytes[i] != other.bytes[i] {
                return false;
            }
            i += 1;
        }
        proof {
            assert(self.bytes@ =~= other.bytes@);
        }
        true
    }
}

/// A reference to a token collection contract, by its 32-byte package
/// hash. The engine only carries it through to the host's transfer calls.
#[derive(Clone, Copy, Debug)]
pub struct CollectionRef {
    pub bytes: [u8; 32],
}

impl View for CollectionRef {
    type V = Seq<u8>;

    open spec fn view(&self) -> Seq<u8> {
        self.bytes@
    }
}

} // verus!
