//! Segmentation into Unicode words (UAX #29 word boundaries, keeping the
//! segments that hold a letter or digit).

use vstd::prelude::*;

use unicode_segmentation::UnicodeSegmentation;

use crate::text::views;

verus! {

/// The Unicode words of a text, as the `unicode-segmentation` crate finds them.
pub uninterp spec fn unicode_words_of(text: Seq<char>) -> Seq<Seq<char>>;

/// Relies on `UnicodeSegmentation::unicode_words`: the words of the text, in
/// order.
#[verifier::external_body]
fn unicode_words(text: &str) -> (r: Vec<String>)
    ensures
        views(r@) == unicode_words_of(text@),
{
    text.unicode_words().map(|w| w.to_string()).collect()
}

/// Splits text into its Unicode words.
#[derive(Clone, Copy, Debug)]
pub struct UnicodeSegmentationPretokenizer;

impl UnicodeSegmentationPretokenizer {
    pub fn pre_tokenize(&self, text: &str) -> (r: Vec<String>)
        ensures
            views(r@) == unicode_words_of(text@),
    {
        unicode_words(text)
    }
}

} // verus!
