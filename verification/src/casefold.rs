//! Lower-casing of Unicode text.

use vstd::prelude::*;

verus! {

/// The lower-case form of `text` under Unicode's case mapping, which knows
/// no locale: the text whose characters `str::to_lowercase` returns for a
/// string that holds `text`.
pub uninterp spec fn lowercase_of(text: Seq<char>) -> Seq<char>;

/// The lower-case form of `s`.
///
/// Calls `str::to_lowercase` of the standard library. Trusted: what that
/// function returns depends on the characters of `s` alone, and
/// [`lowercase_of`] is the name of that result. Nothing more is claimed of
/// it.
#[verifier::external_body]
pub(crate) fn to_lowercase(s: &str) -> (lowered: String)
    ensures
        lowered@ == lowercase_of(s@),
{
    s.to_lowercase()
}

} // verus!
