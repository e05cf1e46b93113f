//! The two Unicode primitives the grid is built on: display width and
//! extended grapheme segmentation. Both come from outside crates and are
//! only named here, never restated.
use unicode_segmentation::UnicodeSegmentation;
use unicode_width::UnicodeWidthStr;
use vstd::prelude::*;

verus! {

/// The number of monospace columns the text occupies.
pub uninterp spec fn text_width(s: Seq<char>) -> usize;

/// The extended grapheme clusters of the text, in order.
pub uninterp spec fn clusters_of(s: Seq<char>) -> Seq<Seq<char>>;

/// Relies on `UnicodeWidthStr::width` (unicode-width): the result is a
/// function of the characters alone.
#[verifier::external_body]
pub(crate) fn display_width(s: &str) -> (r: usize)
    ensures
        r == text_width(s@),
{
    UnicodeWidthStr::width(s)
}

/// Relies on `UnicodeSegmentation::graphemes(s, true)` (unicode-segmentation):
/// the clusters are the consecutive slices between successive boundaries,
/// from the start of the text to its end, so together they spell the text.
#[verifier::external_body]
pub(crate) fn graphemes<'a>(s: &'a str) -> (r: Vec<&'a str>)
    ensures
        r@.map_values(|g: &str| g@) == clusters_of(s@),
        r@.map_values(|g: &str| g@).flatten() == s@,
{
    UnicodeSegmentation::graphemes(s, true).collect()
}

} // verus!
