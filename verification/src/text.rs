//! Whitespace trimming, shared by the coordinator and the transcription
//! helpers. Trimming is deferred to the standard library; its result is
//! named by `trimmed` and every contract in this crate speaks of that name.

use vstd::prelude::*;

verus! {

/// What `str::trim` returns for a string with the given characters.
pub uninterp spec fn trimmed(s: Seq<char>) -> Seq<char>;

/// Relies on `str::trim`: returns the string with leading and trailing
/// whitespace removed; the result depends on the characters alone.
#[verifier::external_body]
pub(crate) fn trim_text(s: &str) -> (r: String)
    ensures
        r@ == trimmed(s@),
        r@.len() <= s@.len(),
        s@.len() == 0 ==> r@.len() == 0,
{
    s.trim().to_owned()
}

} // verus!
