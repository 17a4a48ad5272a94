//! Why a component could not be rebuilt.
use vstd::prelude::*;

verus! {

/// The failures of the decoders and re-encoders.
#[derive(Clone, Copy, Debug, PartialEq, Eq, Structural)]
pub enum ConvertError {
    /// A magic tag, a discriminant or a flag that the format does not allow here.
    Format,
    /// The payload is shorter or longer than the counts of its header say.
    BufferExhaustion,
    /// A tree-face leaf names a vertex that the decoded vertex array does not hold.
    LeafVertexOutOfRange,
    /// The plane constants handed to the collision re-encoder are not one per
    /// leaf that needs one.
    PlaneCountMismatch,
}

/// The bytes of a result, as its contract states them.
pub open spec fn bytes_result(r: Result<Vec<u8>, ConvertError>) -> Result<Seq<u8>, ConvertError> {
    match r {
        Ok(v) => Ok(v@),
        Err(e) => Err(e),
    }
}

} // verus!
