//! Peer identifiers.

use vstd::prelude::*;

verus! {

/// The identifier of a peer: the bytes of the multihash derived from its
/// public key. Two identifiers name the same peer exactly when their bytes
/// are equal.
#[derive(Debug)]
pub struct PeerId(pub Vec<u8>);

impl View for PeerId {
    type V = Seq<u8>;

    open spec fn view(&self) -> Seq<u8> {
        self.0@
    }
}

impl Clone for PeerId {
    fn clone(&self) -> (id: PeerId)
        ensures
            id@ == self@,
    {
        let bytes = self.0.clone();
        assert(bytes@ =~= self.0@);
        PeerId(bytes)
    }
}

impl PeerId {
    /// Whether both identifiers name the same peer.
    pub fn same_peer(&self, other: &PeerId) -> (same: bool)
        ensures
            same == (self@ == other@),
    {
        let same = self.0 == other.0;
        assert(same == (self.0@ =~= other.0@));
        same
    }
}

} // verus!
