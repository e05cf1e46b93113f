//! A single grid cell: one grapheme cluster that is one column wide.
use crate::error::StampError;
use crate::unicode::{display_width, text_width};
use vstd::prelude::*;

verus! {

/// Text that occupies exactly one monospace column.
pub struct Char {
    text: String,
}

impl View for Char {
    type V = Seq<char>;

    closed spec fn view(&self) -> Seq<char> {
        self.text@
    }
}

impl Char {
    #[verifier::type_invariant]
    closed spec fn one_column(self) -> bool {
        text_width(self.text@) == 1
    }

    /// Wraps `s` as a cell; fails unless it is exactly one column wide.
    pub fn new(s: &str) -> (r: Result<Char, StampError>)
        ensures
            r is Ok <==> text_width(s@) == 1,
            r matches Ok(c) ==> c@ == s@,
            r matches Err(e) ==> e == StampError::InvalidCellWidth,
    {
        let width = display_width(s);
        if width != 1 {
            return Err(StampError::InvalidCellWidth);
        }
        Ok(Char { text: s.to_owned() })
    }

    /// The cell's text, verbatim.
    pub fn to_string(&self) -> (r: String)
        ensures
            r@ == self@,
    {
        self.text.clone()
    }
}

impl Clone for Char {
    /// An independent copy of the cell.
    fn clone(&self) -> (r: Char)
        ensures
            r@ == self@,
            text_width(r@) == 1,
    {
        proof {
            use_type_invariant(self);
        }
        Char { text: self.text.clone() }
    }
}

} // verus!
