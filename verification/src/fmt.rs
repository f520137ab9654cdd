//! Rendering of values in messages.
use vstd::prelude::*;

verus! {

/// The text std's `Debug` gives for a string: the string quoted, with the
/// characters that need it escaped.
pub uninterp spec fn str_debug_text(s: Seq<char>) -> Seq<char>;

/// The `Debug` rendering of a string: quoted, with the characters that
/// need it escaped.
///
/// Trusted: calls `format!("{:?}", s)` of std. Claims only that the text is
/// the one named `str_debug_text` for the string: the rendering depends on
/// the string alone.
#[verifier::external_body]
pub(crate) fn debug_str(s: &str) -> (r: String)
    ensures
        r@ == str_debug_text(s@),
{
    format!("{:?}", s)
}

} // verus!
