//! Token filters: each turns one token into zero or more tokens, and a batch
//! of tokens into the concatenation of what each token gives.

pub mod ngram;
pub mod skip_non_alphanumeric;
pub mod stemmer;
pub mod stopwords;
pub mod synonym;

use std::sync::Arc;

use vstd::prelude::*;

use crate::pool::ObjectPool;
use crate::text::views;
use ngram::{Ngram, NgramConfig, NgramConfigError};
use skip_non_alphanumeric::SkipNonAlphanumeric;
use stemmer::{algorithm_of, StemmerKind, StemmerTokenFilter};
use stopwords::StopwordsTokenFilter;
use synonym::SynonymTokenFilter;

verus! {

/// A token filter, one variant per kind.
pub enum TokenFilter {
    SkipNonAlphanumeric(SkipNonAlphanumeric),
    Stemmer(StemmerTokenFilter),
    Stopwords(Arc<StopwordsTokenFilter>),
    Synonym(Arc<SynonymTokenFilter>),
    NGram(Ngram),
}

/// The configuration of one token filter.
#[derive(Clone, Debug)]
pub enum TokenFilterConfig {
    SkipNonAlphanumeric,
    Stemmer(StemmerKind),
    /// A stopword set, by name.
    Stopwords(String),
    /// A dictionary of the host database, by name.
    PgDict(String),
    /// A synonym set, by name.
    Synonym(String),
    NGram(NgramConfig),
}

/// Why a token filter could not be built.
#[derive(Clone, Debug, PartialEq, Eq)]
pub enum TokenFilterError {
    /// No stemming algorithm of this kind is available.
    UnsupportedStemmer(StemmerKind),
    /// No stopword set is published under this name.
    StopwordsNotFound(String),
    /// No synonym set is published under this name.
    SynonymNotFound(String),
    /// Dictionary lexization runs inside the host database, which this
    /// library does not reach.
    DictionaryUnavailable(String),
    InvalidNgram(NgramConfigError),
}

impl TokenFilter {
    /// What the filter emits for one token.
    pub open spec fn spec_apply(self, token: Seq<char>) -> Seq<Seq<char>> {
        match self {
            TokenFilter::SkipNonAlphanumeric(f) => f.spec_apply(token),
            TokenFilter::Stemmer(f) => f.spec_apply(token),
            TokenFilter::Stopwords(f) => f.spec_apply(token),
            TokenFilter::Synonym(f) => f.spec_apply(token),
            TokenFilter::NGram(f) => f.spec_apply(token),
        }
    }

    /// What the filter emits for a batch: the outputs of the tokens in order.
    pub open spec fn spec_apply_batch(self, tokens: Seq<Seq<char>>) -> Seq<Seq<char>>
        decreases tokens.len(),
    {
        if tokens.len() == 0 {
            Seq::empty()
        } else {
            self.spec_apply_batch(tokens.drop_last()) + self.spec_apply(tokens.last())
        }
    }

    /// Applies the filter to one token.
    pub fn apply(&self, token: String) -> (r: Vec<String>)
        ensures
            views(r@) == self.spec_apply(token@),
    {
        match self {
            TokenFilter::SkipNonAlphanumeric(f) => f.apply(token),
            TokenFilter::Stemmer(f) => f.apply(token),
            TokenFilter::Stopwords(f) => f.apply(token),
            TokenFilter::Synonym(f) => f.apply(token),
            TokenFilter::NGram(f) => f.apply(token),
        }
    }

    /// Applies the filter to each token in turn and concatenates the outputs.
    pub fn apply_batch(&self, tokens: Vec<String>) -> (r: Vec<String>)
        ensures
            views(r@) == self.spec_apply_batch(views(tokens@)),
    {
        let mut out: Vec<String> = Vec::new();
        let mut i: usize = 0;
        while i < tokens.len()
            invariant
                i <= tokens@.len(),
                views(out@) == self.spec_apply_batch(views(tokens@).subrange(0, i as int)),
            decreases tokens@.len() - i,
        {
            let ghost before = views(out@);
            let mut emitted = self.apply(tokens[i].clone());
            let ghost added = views(emitted@);
            out.append(&mut emitted);
            assert(views(tokens@).subrange(0, i as int + 1).drop_last() =~= views(tokens@).subrange(
                0,
                i as int,
            ));
            assert(views(out@) =~= before + added);
            i = i + 1;
        }
        assert(views(tokens@).subrange(0, i as int) =~= views(tokens@));
        out
    }
}

/// Whether a configuration can be built against the published sets.
pub open spec fn token_filter_config_ok(
    config: TokenFilterConfig,
    stopwords: Map<Seq<char>, Arc<StopwordsTokenFilter>>,
    synonyms: Map<Seq<char>, Arc<SynonymTokenFilter>>,
) -> bool {
    match config {
        TokenFilterConfig::SkipNonAlphanumeric => true,
        TokenFilterConfig::Stemmer(kind) => algorithm_of(kind) is Some,
        TokenFilterConfig::Stopwords(name) => stopwords.contains_key(name@),
        TokenFilterConfig::PgDict(_) => false,
        TokenFilterConfig::Synonym(name) => synonyms.contains_key(name@),
        TokenFilterConfig::NGram(c) => ngram::ngram_config_check(
            c.min_gram as int,
            c.max_gram as int,
        ) is Ok,
    }
}

/// The filter, or the error, that a configuration gives against the
/// published sets.
pub open spec fn token_filter_built(
    config: TokenFilterConfig,
    stopwords: Map<Seq<char>, Arc<StopwordsTokenFilter>>,
    synonyms: Map<Seq<char>, Arc<SynonymTokenFilter>>,
    r: Result<TokenFilter, TokenFilterError>,
) -> bool {
    match config {
        TokenFilterConfig::SkipNonAlphanumeric => r matches Ok(
            TokenFilter::SkipNonAlphanumeric(_),
        ),
        TokenFilterConfig::Stemmer(kind) => match algorithm_of(kind) {
            Some(a) => r matches Ok(TokenFilter::Stemmer(f)) && f.spec_algorithm() == a,
            None => r == Err::<TokenFilter, _>(TokenFilterError::UnsupportedStemmer(kind)),
        },
        TokenFilterConfig::Stopwords(name) => if stopwords.contains_key(name@) {
            r matches Ok(TokenFilter::Stopwords(f)) && f == stopwords[name@]
        } else {
            r matches Err(TokenFilterError::StopwordsNotFound(n)) && n@ == name@
        },
        TokenFilterConfig::PgDict(name) => r matches Err(
            TokenFilterError::DictionaryUnavailable(n),
        ) && n@ == name@,
        TokenFilterConfig::Synonym(name) => if synonyms.contains_key(name@) {
            r matches Ok(TokenFilter::Synonym(f)) && f == synonyms[name@]
        } else {
            r matches Err(TokenFilterError::SynonymNotFound(n)) && n@ == name@
        },
        TokenFilterConfig::NGram(c) => match ngram::ngram_config_check(
            c.min_gram as int,
            c.max_gram as int,
        ) {
            Ok(_) => r matches Ok(TokenFilter::NGram(f)) && f.spec_min_gram() == c.min_gram
                && f.spec_max_gram() == c.max_gram && f.spec_preserve_original()
                == c.preserve_original,
            Err(e) => r == Err::<TokenFilter, _>(TokenFilterError::InvalidNgram(e)),
        },
    }
}

/// Builds the filter that a configuration names, taking named stopword and
/// synonym sets from the registries.
pub fn get_token_filter(
    config: TokenFilterConfig,
    stopwords: &ObjectPool<StopwordsTokenFilter>,
    synonyms: &ObjectPool<SynonymTokenFilter>,
) -> (r: Result<TokenFilter, TokenFilterError>)
    requires
        stopwords.well_formed(),
        synonyms.well_formed(),
    ensures
        token_filter_built(config, stopwords.view(), synonyms.view(), r),
{
    match config {
        TokenFilterConfig::SkipNonAlphanumeric => Ok(
            TokenFilter::SkipNonAlphanumeric(SkipNonAlphanumeric),
        ),
        TokenFilterConfig::Stemmer(kind) => match StemmerTokenFilter::new(kind) {
            Some(f) => Ok(TokenFilter::Stemmer(f)),
            None => Err(TokenFilterError::UnsupportedStemmer(kind)),
        },
        TokenFilterConfig::Stopwords(name) => match stopwords.get(name.as_str()) {
            Some(f) => Ok(TokenFilter::Stopwords(f)),
            None => Err(TokenFilterError::StopwordsNotFound(name)),
        },
        TokenFilterConfig::PgDict(name) => Err(TokenFilterError::DictionaryUnavailable(name)),
        TokenFilterConfig::Synonym(name) => match synonyms.get(name.as_str()) {
            Some(f) => Ok(TokenFilter::Synonym(f)),
            None => Err(TokenFilterError::SynonymNotFound(name)),
        },
        TokenFilterConfig::NGram(c) => match Ngram::new(c) {
            Ok(f) => Ok(TokenFilter::NGram(f)),
            Err(e) => Err(TokenFilterError::InvalidNgram(e)),
        },
    }
}

} // verus!
