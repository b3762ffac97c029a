//! The fields of a conversion request, and the ways in which a request is
//! refused.

use vstd::prelude::*;

verus! {

/// A field of a request.
#[derive(Debug, Copy, Clone, Eq, PartialEq, Structural)]
pub enum Field {
    /// `name`: the name under which the output is known.
    Name,
    /// `path`: where the image is found.
    Path,
    /// `depth`: the number of bits of a pixel.
    Depth,
    /// `rle`: whether the pixel data is run-length encoded.
    Rle,
}

/// Why a request is refused.
#[derive(Debug, Copy, Clone, Eq, PartialEq, Structural)]
pub enum InputError {
    /// A field was given a second time.
    Duplicate(Field),
    /// The depth is not one that the output offers.
    InvalidDepth(u64),
    /// No path was given.
    MissingPath,
    /// No name was given.
    MissingName,
}

/// Tests whether `name` is the text `word`, letter for letter.
pub fn is_word(name: &String, word: &str) -> (same: bool)
    ensures
        same == (name@ == word@),
{
    *name == word.to_owned()
}

} // verus!
