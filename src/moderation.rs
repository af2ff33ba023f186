//! The content moderator: a case-insensitive search for a forbidden phrase.
use vstd::prelude::*;
use crate::text::contains_text;
use crate::text::has_substring;

verus! {

/// The phrase whose presence, in any letter case, gets a sender removed.
pub const FORBIDDEN_PHRASE: &'static str = "i hate professor";

/// What `str::to_lowercase` makes of `s`.
pub uninterp spec fn lower_of(s: Seq<char>) -> Seq<char>;

/// Relies on `str::to_lowercase`: the result depends on the characters alone,
/// and the empty string stays empty.
#[verifier::external_body]
fn lowercase(s: &str) -> (r: String)
    ensures
        r@ == lower_of(s@),
        s@.len() == 0 ==> r@.len() == 0,
{
    s.to_lowercase()
}

/// Whether text that is already in lower case holds the forbidden phrase.
pub open spec fn prohibited_lowered(lowered: Seq<char>) -> bool {
    has_substring(lowered, FORBIDDEN_PHRASE@)
}

/// Whether `content` holds the forbidden phrase in any letter case.
pub open spec fn prohibited(content: Seq<char>) -> bool {
    prohibited_lowered(lower_of(content))
}

/// Tests text that is already in lower case for the forbidden phrase.
pub fn is_prohibited_lowered(lowered: &str) -> (r: bool)
    ensures
        r == prohibited_lowered(lowered@),
{
    contains_text(lowered, FORBIDDEN_PHRASE)
}

/// Tests `content` for the forbidden phrase, ignoring letter case.
pub fn contains_prohibited_content(content: &str) -> (r: bool)
    ensures
        r == prohibited(content@),
{
    let lowered = lowercase(content);
    is_prohibited_lowered(lowered.as_str())
}

} // verus!
