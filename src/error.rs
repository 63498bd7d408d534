use vstd::prelude::*;

verus! {

/// Why an operation of the dispatcher did not complete.
#[derive(Debug, Clone, Copy, PartialEq, Eq, Structural)]
pub enum DispatchError {
    /// A domain code in the range that the compute peer keeps for itself.
    ReservedDomain,
    /// A peer payload without the `0x` marker, whose rest is no hex text, or
    /// whose bytes are no content identifier where one is expected.
    MalformedResponse,
    /// The compute peer answered with this non-zero response code.
    PeerRejection(u16),
    /// A data query for a namespace other than `keccak256`.
    WrongNamespace,
    /// Text given by a caller or by the content store that does not form a
    /// content identifier.
    InvalidCid,
    /// The content store has nothing at the path.
    StoreNotFound,
    /// The content store failed or could not be reached.
    StoreFailed,
}

} // verus!
