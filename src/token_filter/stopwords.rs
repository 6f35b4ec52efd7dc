//! The stopword filter: drops every token listed in a stopword set.

use vstd::prelude::*;

use crate::text::{lines, lines_of, views};

verus! {

/// A stopword set, one word per line of its configuration.
pub struct StopwordsTokenFilter {
    stopwords: Vec<String>,
}

/// What the filter emits for a token, given the stopwords.
pub open spec fn drop_stopword(stopwords: Seq<Seq<char>>, token: Seq<char>) -> Seq<Seq<char>> {
    if stopwords.contains(token) {
        Seq::empty()
    } else {
        seq![token]
    }
}

impl StopwordsTokenFilter {
    /// The stopwords, in the order of the configuration.
    pub closed spec fn spec_words(self) -> Seq<Seq<char>> {
        views(self.stopwords@)
    }

    pub open spec fn spec_apply(self, token: Seq<char>) -> Seq<Seq<char>> {
        drop_stopword(self.spec_words(), token)
    }

    /// Reads a stopword set: each line is one stopword, taken verbatim.
    pub fn build(config: &str) -> (r: Self)
        ensures
            r.spec_words() == lines_of(config@),
    {
        StopwordsTokenFilter { stopwords: lines(config) }
    }

    /// Whether `token` is one of the stopwords.
    pub fn contains(&self, token: &String) -> (r: bool)
        ensures
            r == self.spec_words().contains(token@),
    {
        let n = self.stopwords.len();
        let mut i: usize = 0;
        while i < n
            invariant
                i <= n,
                n == self.stopwords@.len(),
                forall|j: int| 0 <= j < i ==> self.stopwords@[j]@ != token@,
            decreases n - i,
        {
            if self.stopwords[i] == *token {
                assert(self.spec_words()[i as int] == token@);
                return true;
            }
            i = i + 1;
        }
        proof {
            if self.spec_words().contains(token@) {
                let j = choose|j: int| 0 <= j < self.spec_words().len() && self.spec_words()[j] == token@;
                assert(self.stopwords@[j]@ == token@);
            }
        }
        false
    }

    /// Drops the token if it is a stopword, and keeps it otherwise.
    pub fn apply(&self, token: String) -> (r: Vec<String>)
        ensures
            views(r@) == self.spec_apply(token@),
    {
        if self.contains(&token) {
            let r: Vec<String> = Vec::new();
            assert(views(r@) =~= Seq::<Seq<char>>::empty());
            r
        } else {
            let ghost t = token@;
            let r = vec![token];
            assert(views(r@) =~= seq![t]);
            r
        }
    }
}

/// A token found verbatim in the stopword set is dropped; any other token
/// passes through unchanged.
pub proof fn lemma_stopwords_filter(filter: StopwordsTokenFilter, token: Seq<char>)
    ensures
        filter.spec_words().contains(token) ==> filter.spec_apply(token) == Seq::<Seq<char>>::empty(),
        !filter.spec_words().contains(token) ==> filter.spec_apply(token) == seq![token],
{
}

} // verus!
