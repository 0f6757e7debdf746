use vstd::prelude::*;

verus! {

/// Every way in which decoding a header block can fail.
#[derive(Debug, Copy, Clone, PartialEq, Eq, Structural)]
pub enum DecoderError {
    InvalidRepresentation,
    InvalidIntegerPrefix,
    InvalidTableIndex,
    InvalidHuffmanCode,
    InvalidUtf8,
    InvalidStatusCode,
    InvalidPseudoheader,
    InvalidMaxDynamicSize,
    IntegerUnderflow,
    IntegerOverflow,
    StringUnderflow,
}

} // verus!
