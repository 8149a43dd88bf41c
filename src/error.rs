use vstd::prelude::*;

verus! {

/// Every way a decode can fail. All of them are returned to the caller;
/// none is retried inside the library.
#[derive(Debug, Clone, Copy, PartialEq, Eq, Structural)]
pub enum DecodeError {
    /// A magic number did not match.
    MalformedHeader,
    /// A read went past the available bits or bytes.
    TruncatedInput,
    /// A command tag or an in-packet message opcode that is not known.
    UnsupportedOpcode(u32),
    /// A compressed section whose framing or payload could not be decoded.
    CompressionError,
    /// A byte count that is not an exact multiple of the record size.
    RecordSizeMismatch,
    /// A lump index or game-lump id that is not present.
    IndexNotFound,
}

} // verus!
