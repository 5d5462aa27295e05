use vstd::prelude::*;

verus! {

/// What can go wrong underneath a storage operation.
///
/// Store-level reads and writes themselves are total; the faults all come
/// from the codec layer: bytes that cannot be read back as a value, or an
/// encoded buffer that cannot be spliced with new items.
#[derive(Clone, Copy, Debug, PartialEq, Eq, Structural)]
pub enum StorageFault {
    /// Bytes were present under the key but could not be decoded.
    DecodeFault,
    /// The stored buffer rejected an encoding-aware append.
    AppendSpliceFault,
}

} // verus!
