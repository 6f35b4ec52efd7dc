//! The filter that drops tokens without any letter or digit.

use vstd::prelude::*;

use crate::text::{chars_of, views};

verus! {

/// Unicode `Alphabetic` or `Numeric`, as `char::is_alphanumeric` decides it.
pub uninterp spec fn alphanumeric(c: char) -> bool;

/// Relies on `char::is_alphanumeric`: whether the character is a letter or a
/// digit in the Unicode sense.
#[verifier::external_body]
fn char_is_alphanumeric(c: char) -> (r: bool)
    ensures
        r == alphanumeric(c),
{
    c.is_alphanumeric()
}

/// Whether some character of the token is alphanumeric.
pub open spec fn has_alphanumeric(token: Seq<char>) -> bool {
    exists|i: int| 0 <= i < token.len() && alphanumeric(#[trigger] token[i])
}

/// Drops tokens that hold no alphanumeric character.
#[derive(Clone, Copy, Debug)]
pub struct SkipNonAlphanumeric;

impl SkipNonAlphanumeric {
    pub open spec fn spec_apply(self, token: Seq<char>) -> Seq<Seq<char>> {
        if has_alphanumeric(token) {
            seq![token]
        } else {
            Seq::empty()
        }
    }

    /// Keeps the token when it holds a letter or a digit.
    pub fn apply(&self, token: String) -> (r: Vec<String>)
        ensures
            views(r@) == self.spec_apply(token@),
    {
        let chars = chars_of(token.as_str());
        let mut found = false;
        let mut i: usize = 0;
        while i < chars.len()
            invariant
                i <= chars@.len(),
                chars@ == token@,
                found == exists|j: int| 0 <= j < i && alphanumeric(#[trigger] chars@[j]),
            decreases chars@.len() - i,
        {
            if char_is_alphanumeric(chars[i]) {
                found = true;
            }
            i = i + 1;
        }
        if found {
            let ghost t = token@;
            let r = vec![token];
            assert(views(r@) =~= seq![t]);
            r
        } else {
            let r: Vec<String> = Vec::new();
            assert(views(r@) =~= Seq::<Seq<char>>::empty());
            r
        }
    }
}

} // verus!
