//! Display width of text in terminal columns, as `unicode-width` measures it.

use unicode_width::UnicodeWidthStr;
use vstd::prelude::*;

verus! {

/// The number of terminal columns `UnicodeWidthStr::width` gives a string.
pub uninterp spec fn str_width(s: Seq<char>) -> nat;

/// Calls `UnicodeWidthStr::width` on `s`: the display width of the string in
/// columns, with ambiguous-width characters counted as one column. The
/// contract names the result and says that the empty string is zero columns
/// wide (the crate folds the characters' widths over a starting sum of zero).
#[verifier::external_body]
pub(crate) fn display_width(s: &str) -> (w: usize)
    ensures
        w == str_width(s@),
        s@.len() == 0 ==> w == 0,
{
    UnicodeWidthStr::width(s)
}

} // verus!
