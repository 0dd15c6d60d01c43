//! Two operations on string slices that the standard library performs and the
//! verifier knows nothing of. Their contracts are taken on trust.

use vstd::prelude::*;

verus! {

/// `text` with every occurrence of the character `from` replaced by `to`.
pub open spec fn replace_char(text: Seq<char>, from: char, to: char) -> Seq<char> {
    Seq::new(text.len(), |i: int| if text[i] == from { to } else { text[i] })
}

/// `str::eq`: two string slices are equal exactly when they hold the same
/// characters.
#[verifier::external_body]
pub(crate) fn same_text(left: &str, right: &str) -> (same: bool)
    ensures
        same == (left@ == right@),
{
    left == right
}

/// `str::replace` with a pattern and a replacement of one character each:
/// every occurrence of the pattern's character is replaced, every other
/// character is kept, so the result has the length of the input.
#[verifier::external_body]
pub(crate) fn replace_all(text: &str, from: &str, to: &str) -> (replaced: String)
    requires
        from@.len() == 1,
        to@.len() == 1,
    ensures
        replaced@ == replace_char(text@, from@[0], to@[0]),
{
    text.replace(from, to)
}

} // verus!
