//! The stemming filter: replaces a token by its stem under a Snowball
//! algorithm.

use vstd::prelude::*;

use crate::text::views;

verus! {

#[verifier::external_type_specification]
pub struct ExAlgorithm(rust_stemmers::Algorithm);

/// The stem of a word under an algorithm, as `rust_stemmers` computes it.
pub uninterp spec fn stem_of(algorithm: rust_stemmers::Algorithm, word: Seq<char>) -> Seq<char>;

/// Relies on `rust_stemmers::Stemmer::create` and `Stemmer::stem`: the stem of
/// `word` under `algorithm`.
#[verifier::external_body]
fn stem(language: rust_stemmers::Algorithm, word: &str) -> (r: String)
    ensures
        r@ == stem_of(language, word@),
{
    rust_stemmers::Stemmer::create(language).stem(word).into_owned()
}

/// The stemming algorithms a configuration may name.
#[derive(Clone, Copy, Debug, PartialEq, Eq)]
pub enum StemmerKind {
    Arabic,
    Armenian,
    Basque,
    Catalan,
    Danish,
    Dutch,
    EnglishPorter2,
    Estonian,
    Finnish,
    French,
    German,
    Greek,
    Hindi,
    Hungarian,
    Indonesian,
    Irish,
    Italian,
    Lithuanian,
    Nepali,
    Norwegian,
    EnglishPorter,
    Portuguese,
    Romanian,
    Russian,
    Serbian,
    Spanish,
    Swedish,
    Tamil,
    Turkish,
    Yiddish,
}

/// The algorithm of `rust_stemmers` that implements a kind, where it has one.
pub open spec fn algorithm_of(kind: StemmerKind) -> Option<rust_stemmers::Algorithm> {
    match kind {
        StemmerKind::Arabic => Some(rust_stemmers::Algorithm::Arabic),
        StemmerKind::Danish => Some(rust_stemmers::Algorithm::Danish),
        StemmerKind::Dutch => Some(rust_stemmers::Algorithm::Dutch),
        StemmerKind::EnglishPorter2 => Some(rust_stemmers::Algorithm::English),
        StemmerKind::Finnish => Some(rust_stemmers::Algorithm::Finnish),
        StemmerKind::French => Some(rust_stemmers::Algorithm::French),
        StemmerKind::German => Some(rust_stemmers::Algorithm::German),
        StemmerKind::Greek => Some(rust_stemmers::Algorithm::Greek),
        StemmerKind::Hungarian => Some(rust_stemmers::Algorithm::Hungarian),
        StemmerKind::Italian => Some(rust_stemmers::Algorithm::Italian),
        StemmerKind::Norwegian => Some(rust_stemmers::Algorithm::Norwegian),
        StemmerKind::Portuguese => Some(rust_stemmers::Algorithm::Portuguese),
        StemmerKind::Romanian => Some(rust_stemmers::Algorithm::Romanian),
        StemmerKind::Russian => Some(rust_stemmers::Algorithm::Russian),
        StemmerKind::Spanish => Some(rust_stemmers::Algorithm::Spanish),
        StemmerKind::Swedish => Some(rust_stemmers::Algorithm::Swedish),
        StemmerKind::Tamil => Some(rust_stemmers::Algorithm::Tamil),
        StemmerKind::Turkish => Some(rust_stemmers::Algorithm::Turkish),
        _ => None,
    }
}

/// The algorithm for a kind, or `None` for a kind that `rust_stemmers` lacks.
pub fn algorithm(kind: StemmerKind) -> (r: Option<rust_stemmers::Algorithm>)
    ensures
        r == algorithm_of(kind),
{
    match kind {
        StemmerKind::Arabic => Some(rust_stemmers::Algorithm::Arabic),
        StemmerKind::Danish => Some(rust_stemmers::Algorithm::Danish),
        StemmerKind::Dutch => Some(rust_stemmers::Algorithm::Dutch),
        StemmerKind::EnglishPorter2 => Some(rust_stemmers::Algorithm::English),
        StemmerKind::Finnish => Some(rust_stemmers::Algorithm::Finnish),
        StemmerKind::French => Some(rust_stemmers::Algorithm::French),
        StemmerKind::German => Some(rust_stemmers::Algorithm::German),
        StemmerKind::Greek => Some(rust_stemmers::Algorithm::Greek),
        StemmerKind::Hungarian => Some(rust_stemmers::Algorithm::Hungarian),
        StemmerKind::Italian => Some(rust_stemmers::Algorithm::Italian),
        StemmerKind::Norwegian => Some(rust_stemmers::Algorithm::Norwegian),
        StemmerKind::Portuguese => Some(rust_stemmers::Algorithm::Portuguese),
        StemmerKind::Romanian => Some(rust_stemmers::Algorithm::Romanian),
        StemmerKind::Russian => Some(rust_stemmers::Algorithm::Russian),
        StemmerKind::Spanish => Some(rust_stemmers::Algorithm::Spanish),
        StemmerKind::Swedish => Some(rust_stemmers::Algorithm::Swedish),
        StemmerKind::Tamil => Some(rust_stemmers::Algorithm::Tamil),
        StemmerKind::Turkish => Some(rust_stemmers::Algorithm::Turkish),
        _ => None,
    }
}

/// Replaces each token by its stem; always emits exactly one token.
pub struct StemmerTokenFilter {
    algorithm: rust_stemmers::Algorithm,
}

impl StemmerTokenFilter {
    pub closed spec fn spec_algorithm(self) -> rust_stemmers::Algorithm {
        self.algorithm
    }

    pub open spec fn spec_apply(self, token: Seq<char>) -> Seq<Seq<char>> {
        seq![stem_of(self.spec_algorithm(), token)]
    }

    /// The filter for a kind; `None` for a kind with no algorithm here.
    pub fn new(kind: StemmerKind) -> (r: Option<Self>)
        ensures
            r is Some <==> algorithm_of(kind) is Some,
            r matches Some(f) ==> Some(f.spec_algorithm()) == algorithm_of(kind),
    {
        match algorithm(kind) {
            Some(algorithm) => Some(StemmerTokenFilter { algorithm }),
            None => None,
        }
    }

    /// The stem of the token.
    pub fn apply(&self, token: String) -> (r: Vec<String>)
        ensures
            views(r@) == self.spec_apply(token@),
    {
        let stemmed = stem(self.algorithm, token.as_str());
        let ghost s = stemmed@;
        let r = vec![stemmed];
        assert(views(r@) =~= seq![s]);
        r
    }
}

} // verus!
