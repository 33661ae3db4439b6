//! What can go wrong when a list column is laid out, opened, written or read.

use vstd::prelude::*;

verus! {

/// An error of the array library. Nothing is read from it: the functions that meet one report
/// a [`ListError`] instead.
#[verifier::external_type_specification]
#[verifier::external_body]
pub struct ExVortexError(vortex_error::VortexError);

/// The failures of this crate.
#[derive(Clone, Copy, Debug, PartialEq, Eq, Structural)]
pub enum ListError {
    /// A list layout was asked for a type that is not a list.
    ExpectedListDType,
    /// A list layout was opened over the wrong number of children.
    ChildCount { actual: usize, expected: usize },
    /// The children of a list layout were to be replaced by the wrong number of children.
    ReplacementCount { actual: usize, expected: usize },
    /// A child was asked for by an index that no child has.
    ChildOutOfBounds { index: usize },
    /// A child holds values of another type than the one it was asked for.
    ChildDType { index: usize },
    /// A number that stands for no physical type.
    InvalidPType { code: i32 },
    /// The elements written so far and those of a chunk are more than an offset can count.
    OffsetOverflow,
    /// An offset lies before the first one of its range.
    OffsetUnderflow,
    /// Elements, offsets and validity do not make up a list column.
    InvalidList,
    /// A row mask has another length than the rows that it selects from.
    MaskLength { actual: usize, expected: usize },
    /// The stream of chunks failed.
    Stream,
}

} // verus!
