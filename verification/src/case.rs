//! Lowercasing of player input.

use vstd::prelude::*;

verus! {

/// The lowercase form of a text, as the standard library computes it from the
/// Unicode case mappings. It depends on the text alone.
pub uninterp spec fn lowercase(text: Seq<char>) -> Seq<char>;

/// The lowercase form of `text`.
///
/// Calls `str::to_lowercase`. Nothing is proved of the mapping itself: the
/// result is only given its name, `lowercase` of the text.
#[verifier::external_body]
pub(crate) fn to_lowercase(text: &str) -> (lowered: String)
    ensures
        lowered@ == lowercase(text@),
{
    text.to_lowercase()
}

} // verus!
