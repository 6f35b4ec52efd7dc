//! The n-gram filter: every run of `min_gram` to `max_gram` characters of a
//! token, optionally with the token itself.

use vstd::prelude::*;

use crate::text::{chars_of, string_of, views};

verus! {

/// The n-grams that start at character `i`, shortest first.
pub open spec fn grams_at(token: Seq<char>, i: int, min_gram: int, max_gram: int) -> Seq<Seq<char>> {
    let hi = if i + max_gram < token.len() {
        i + max_gram
    } else {
        token.len() as int
    };
    Seq::new((hi - (i + min_gram) + 1) as nat, |k: int| token.subrange(i, i + min_gram + k))
}

/// The n-grams of all starts before `i`, in order of their start.
pub open spec fn grams_before(token: Seq<char>, min_gram: int, max_gram: int, i: int) -> Seq<
    Seq<char>,
>
    decreases i,
{
    if i <= 0 {
        Seq::empty()
    } else {
        grams_before(token, min_gram, max_gram, i - 1) + grams_at(token, i - 1, min_gram, max_gram)
    }
}

/// What the filter emits for a token: the n-grams by start and then by length,
/// and the token itself when asked for and its length lies outside the gram
/// range.
pub open spec fn ngrams(token: Seq<char>, min_gram: int, max_gram: int, preserve_original: bool) -> Seq<
    Seq<char>,
> {
    let len = token.len() as int;
    let starts = if len >= min_gram {
        len - min_gram + 1
    } else {
        0
    };
    let grams = grams_before(token, min_gram, max_gram, starts);
    if preserve_original && !(min_gram <= len <= max_gram) {
        grams.push(token)
    } else {
        grams
    }
}

/// Settings of the n-gram filter.
#[derive(Clone, Debug)]
pub struct NgramConfig {
    pub max_gram: usize,
    pub min_gram: usize,
    pub preserve_original: bool,
}

/// Why an n-gram configuration was refused.
#[derive(Clone, Debug, PartialEq, Eq)]
pub enum NgramConfigError {
    /// `min_gram` is not in `1..=255`.
    MinGramOutOfRange,
    /// `max_gram` is not in `1..=255`.
    MaxGramOutOfRange,
    /// `min_gram` is larger than `max_gram`.
    MinGreaterThanMax,
}

/// An accepted n-gram configuration.
pub open spec fn valid_ngram_config(min_gram: int, max_gram: int) -> bool {
    1 <= min_gram <= 255 && 1 <= max_gram <= 255 && min_gram <= max_gram
}

/// The outcome of checking the gram bounds, first failing check first.
pub open spec fn ngram_config_check(min_gram: int, max_gram: int) -> Result<(), NgramConfigError> {
    if !(1 <= min_gram <= 255) {
        Err(NgramConfigError::MinGramOutOfRange)
    } else if !(1 <= max_gram <= 255) {
        Err(NgramConfigError::MaxGramOutOfRange)
    } else if min_gram > max_gram {
        Err(NgramConfigError::MinGreaterThanMax)
    } else {
        Ok(())
    }
}

impl NgramConfig {
    pub fn default_max_gram() -> (r: usize)
        ensures
            r == 2,
    {
        2
    }

    pub fn default_min_gram() -> (r: usize)
        ensures
            r == 1,
    {
        1
    }

    pub fn default_preserve_original() -> (r: bool)
        ensures
            r == false,
    {
        false
    }

    /// Checks the gram bounds.
    pub fn validate(&self) -> (r: Result<(), NgramConfigError>)
        ensures
            r is Ok <==> valid_ngram_config(self.min_gram as int, self.max_gram as int),
            r == ngram_config_check(self.min_gram as int, self.max_gram as int),
    {
        if self.min_gram < 1 || self.min_gram > 255 {
            return Err(NgramConfigError::MinGramOutOfRange);
        }
        if self.max_gram < 1 || self.max_gram > 255 {
            return Err(NgramConfigError::MaxGramOutOfRange);
        }
        if self.min_gram > self.max_gram {
            return Err(NgramConfigError::MinGreaterThanMax);
        }
        Ok(())
    }
}

/// The n-gram filter, with a checked configuration.
pub struct Ngram {
    config: NgramConfig,
}

impl Ngram {
    #[verifier::type_invariant]
    spec fn well_formed(self) -> bool {
        valid_ngram_config(self.config.min_gram as int, self.config.max_gram as int)
    }

    pub closed spec fn spec_min_gram(self) -> int {
        self.config.min_gram as int
    }

    pub closed spec fn spec_max_gram(self) -> int {
        self.config.max_gram as int
    }

    pub closed spec fn spec_preserve_original(self) -> bool {
        self.config.preserve_original
    }

    /// What the filter emits for a token.
    pub open spec fn spec_apply(self, token: Seq<char>) -> Seq<Seq<char>> {
        ngrams(token, self.spec_min_gram(), self.spec_max_gram(), self.spec_preserve_original())
    }

    /// Builds the filter; refuses a configuration outside the gram bounds.
    pub fn new(config: NgramConfig) -> (r: Result<Self, NgramConfigError>)
        ensures
            r is Ok <==> valid_ngram_config(config.min_gram as int, config.max_gram as int),
            r matches Ok(f) ==> f.spec_min_gram() == config.min_gram && f.spec_max_gram()
                == config.max_gram && f.spec_preserve_original() == config.preserve_original,
            r matches Err(e) ==> ngram_config_check(config.min_gram as int, config.max_gram as int) == Err::<(), _>(e),
    {
        match config.validate() {
            Ok(()) => Ok(Ngram { config }),
            Err(e) => Err(e),
        }
    }

    /// The n-grams of a token, counted in characters.
    pub fn apply(&self, token: String) -> (r: Vec<String>)
        ensures
            views(r@) == self.spec_apply(token@),
    {
        proof {
            use_type_invariant(self);
        }
        let min_gram = self.config.min_gram;
        let max_gram = self.config.max_gram;
        let chars = chars_of(token.as_str());
        let len = chars.len();
        let ghost t = token@;
        let mut results: Vec<String> = Vec::new();
        if len >= min_gram {
            let starts = len - min_gram + 1;
            let mut i: usize = 0;
            while i < starts
                invariant
                    i <= starts,
                    starts == len - min_gram + 1,
                    len == chars@.len(),
                    chars@ == t,
                    1 <= min_gram <= max_gram <= 255,
                    views(results@) == grams_before(t, min_gram as int, max_gram as int, i as int),
                decreases starts - i,
            {
                let hi = if max_gram < len - i {
                    i + max_gram
                } else {
                    len
                };
                let ghost prefix = views(results@);
                let ghost all = grams_at(t, i as int, min_gram as int, max_gram as int);
                let mut j: usize = i + min_gram;
                loop
                    invariant_except_break
                        views(results@) == prefix + all.subrange(0, j - (i + min_gram)),
                    invariant
                        i + min_gram <= j <= hi,
                        hi <= len,
                        len == chars@.len(),
                        chars@ == t,
                        all == grams_at(t, i as int, min_gram as int, max_gram as int),
                        all.len() == hi - (i + min_gram) + 1,
                    ensures
                        views(results@) == prefix + all,
                    decreases hi - j,
                {
                    let gram = string_of(chars.as_slice(), i, j);
                    let ghost before = views(results@);
                    results.push(gram);
                    assert(views(results@) =~= before.push(gram@));
                    assert(views(results@) =~= prefix + all.subrange(0, j + 1 - (i + min_gram)));
                    if j == hi {
                        assert(all.subrange(0, j + 1 - (i + min_gram)) =~= all);
                        break;
                    }
                    j = j + 1;
                }
                i = i + 1;
            }
        }
        if self.config.preserve_original && !(min_gram <= len && len <= max_gram) {
            let ghost before = views(results@);
            results.push(token);
            assert(views(results@) =~= before.push(t));
        }
        results
    }
}

} // verus!
