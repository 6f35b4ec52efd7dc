//! Unicode lower-casing of the whole text.

use std::borrow::Cow;

use vstd::prelude::*;

use crate::text::keep_or_replace;

verus! {

/// The text lower-cased, as `str::to_lowercase` computes it.
pub uninterp spec fn lower_of(text: Seq<char>) -> Seq<char>;

/// Relies on `str::to_lowercase`: the lowercase mapping of each character.
#[verifier::external_body]
fn lowercase(text: &str) -> (r: String)
    ensures
        r@ == lower_of(text@),
{
    text.to_lowercase()
}

/// Lower-cases the text.
#[derive(Clone, Copy, Debug)]
pub struct ToLowercase;

impl ToLowercase {
    /// The rewritten text; the input itself when nothing changes.
    pub fn apply<'a>(&self, text: &'a str) -> (r: Cow<'a, str>)
        ensures
            r@ == lower_of(text@),
            r is Borrowed <==> lower_of(text@) == text@,
    {
        keep_or_replace(text, lowercase(text))
    }
}

} // verus!
