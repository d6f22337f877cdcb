//! The error taxonomy of the decoder. Every fatal failure aborts the decode
//! of the current file; no partial record tree is ever returned.

use vstd::prelude::*;

verus! {

/// Why a decode failed, with the byte offset at which the failure was seen.
#[derive(Clone, Copy, Debug, PartialEq, Eq, Structural)]
pub enum Fof9Error {
    /// Fewer bytes were available than a fixed-width field requires.
    TruncatedInput { pos: usize },
    /// A fixed byte signature did not match the expected sequence.
    MagicMismatch { pos: usize },
    /// A discriminator value fell outside the enumerated closed set.
    UnknownVariantTag { pos: usize, tag: u32 },
    /// A post-decode cross-field check failed (count mismatch, ordering).
    StructuralInvariantViolation { pos: usize },
    /// The stream ended before a terminal-shaped element was produced.
    UnexpectedEndOfSequence { pos: usize },
}

impl Fof9Error {
    /// The byte offset at which the failure was observed.
    pub fn offset(&self) -> (r: usize)
        ensures
            r == self.spec_offset(),
    {
        match self {
            Fof9Error::TruncatedInput { pos } => *pos,
            Fof9Error::MagicMismatch { pos } => *pos,
            Fof9Error::UnknownVariantTag { pos, .. } => *pos,
            Fof9Error::StructuralInvariantViolation { pos } => *pos,
            Fof9Error::UnexpectedEndOfSequence { pos } => *pos,
        }
    }

    /// The byte offset carried by each error variant.
    pub open spec fn spec_offset(&self) -> usize {
        match self {
            Fof9Error::TruncatedInput { pos } => *pos,
            Fof9Error::MagicMismatch { pos } => *pos,
            Fof9Error::UnknownVariantTag { pos, .. } => *pos,
            Fof9Error::StructuralInvariantViolation { pos } => *pos,
            Fof9Error::UnexpectedEndOfSequence { pos } => *pos,
        }
    }
}

} // verus!
