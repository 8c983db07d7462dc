//! Quoted texts for diagnostics.

use vstd::prelude::*;

verus! {

/// The text that the standard library's `Debug` gives a string.
pub uninterp spec fn debug_quoted(s: Seq<char>) -> Seq<char>;

/// `format!` with `{:?}` and a string: a text that depends on the string alone.
#[verifier::external_body]
pub(crate) fn debug_quote(s: &str) -> (out: String)
    ensures
        out@ == debug_quoted(s@),
{
    format!("{:?}", s)
}

} // verus!
