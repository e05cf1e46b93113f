//! The ways building or compositing a stamp can fail.
use vstd::prelude::*;

verus! {

#[derive(Debug, Clone, Copy, PartialEq, Eq, Structural)]
pub enum StampError {
    /// The text given to the padding constructor was empty.
    EmptyInput,
    /// Splitting the text gave no rows.
    NoRows,
    /// The first row is zero columns wide.
    ZeroWidth,
    /// Some row is not as wide as the first one.
    RowWidthMismatch,
    /// Some grapheme cluster is not exactly one column wide, or a row's
    /// clusters do not number its width.
    InvalidCellWidth,
    /// The anchor of an overlay lies outside the base stamp.
    AnchorOutOfBounds,
}

} // verus!
