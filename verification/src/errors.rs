use vstd::prelude::*;

verus! {

/// A malformed code-length description handed to the Huffman table builder.
#[derive(Clone, Copy, PartialEq, Eq, Structural, Debug)]
pub enum BuildError {
    /// The lengths imply more codes than the length distribution permits.
    Oversubscribed,
    /// The tree is under-specified (and not the accepted one-code degenerate case).
    Incomplete,
}

/// A terminal corruption error: the affected stream cannot be resynchronized.
#[derive(Clone, Copy, PartialEq, Eq, Structural, Debug)]
pub enum DecodeError {
    /// A block header carried the reserved block type.
    InvalidBlockType,
    /// A stored block's length and its ones'-complement check disagree.
    InvalidStoredBlockLength,
    /// A dynamic block header is malformed (counts, run codes, or table build).
    InvalidDynamicHeader,
    /// A decode-table miss or a reserved symbol.
    InvalidSymbol,
    /// A back-reference reaches behind the bytes produced so far, or past the window.
    DistanceTooFar,
    /// The stream's framing header is unacceptable (method, window size, or check bits).
    InvalidWindowBits,
    /// The trailing checksum does not match the decompressed data.
    ChecksumMismatch,
}

/// Outcome of one `push` call. Every variant reports the count of input bytes
/// consumed and of output bytes produced by that call, so no decoded output is
/// ever silently lost, even on error.
#[derive(Clone, Copy, PartialEq, Eq, Structural, Debug)]
pub enum DecodeResult {
    /// Progress was made; call again.
    Decoded(usize, usize),
    /// Suspended at a bit-exact resumable point; supply more input.
    NeedInput(usize, usize),
    /// The final block was processed and the trailer, if framed, validated.
    Eof(usize, usize),
    /// The stream is corrupt; terminal.
    InvalidData(DecodeError, usize, usize),
}

/// Input bytes a `push` call reports as consumed.
pub open spec fn consumed_of(r: DecodeResult) -> int {
    match r {
        DecodeResult::Decoded(c, _) => c as int,
        DecodeResult::NeedInput(c, _) => c as int,
        DecodeResult::Eof(c, _) => c as int,
        DecodeResult::InvalidData(_, c, _) => c as int,
    }
}

/// Output bytes a `push` call reports as produced.
pub open spec fn produced_of(r: DecodeResult) -> int {
    match r {
        DecodeResult::Decoded(_, p) => p as int,
        DecodeResult::NeedInput(_, p) => p as int,
        DecodeResult::Eof(_, p) => p as int,
        DecodeResult::InvalidData(_, _, p) => p as int,
    }
}

} // verus!
