use vstd::prelude::*;

verus! {

/// Why a decode failed.
#[derive(Debug, Clone, Copy, PartialEq, Eq, Structural)]
pub enum MrtError {
    /// Fewer bytes remain than a fixed field or an envelope length promises.
    TruncatedInput,
    /// A path attribute reaches past the end of the bytes it was read from.
    TruncatedAttribute,
    /// A path attribute reaches past the byte budget that holds it.
    AttributeOverrun,
    /// The parts of a RIB record do not add up to the length of its envelope.
    RecordLengthMismatch,
    /// A known record type with a subtype that is not decoded.
    UnsupportedSubtype(u16),
    /// A record type that is not decoded.
    UnsupportedType(u16),
}

} // verus!
