//! Temporary files: their names, and whether a file holds a value.

use vstd::prelude::*;

verus! {

/// The end of a temporary file's name: a dot and the extension, or nothing for
/// an empty extension.
pub open spec fn suffix(extension: Seq<char>) -> Seq<char> {
    if extension.len() == 0 {
        Seq::empty()
    } else {
        "."@ + extension
    }
}

/// The end of a temporary file's name.
pub fn temp_suffix(extension: &str) -> (out: String)
    ensures
        out@ == suffix(extension@),
{
    if extension.is_empty() {
        String::new()
    } else {
        ".".to_owned().concat(extension)
    }
}

/// The mode that is set on a temporary file: none for zero.
pub fn requested_mode(mode: u32) -> (r: Option<u32>)
    ensures
        r == if mode == 0 {
            None::<u32>
        } else {
            Some(mode)
        },
{
    if mode == 0 {
        None
    } else {
        Some(mode)
    }
}

} // verus!
