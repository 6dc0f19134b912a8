//! Display widths of characters, in screen cells.

use unicode_width::UnicodeWidthChar;
use vstd::prelude::*;

verus! {

/// What `unicode_width` reports as the displayed width of `c` outside an East
/// Asian context: the number of columns, or `None` for a control character.
pub uninterp spec fn display_width(c: char) -> Option<usize>;

/// The number of screen cells that `c` takes up: its displayed width, and
/// none at all where it has no width.
pub open spec fn cell_width(c: char) -> nat {
    match display_width(c) {
        Some(w) => w as nat,
        None => 0,
    }
}

/// Calls `UnicodeWidthChar::width` of `unicode_width` on `c`. Nothing is
/// proved of it: the contract only names the result, which the crate looks up
/// in its tables and which depends on `c` alone.
#[verifier::external_body]
fn char_width(c: char) -> (width: Option<usize>)
    ensures
        width == display_width(c),
{
    UnicodeWidthChar::width(c)
}

/// The number of screen cells that `c` takes up.
pub fn cell_width_of(c: char) -> (n: usize)
    ensures
        n == cell_width(c),
{
    match char_width(c) {
        Some(w) => w,
        None => 0,
    }
}

} // verus!
