//! The tokenizer: a text analyzer and a model, from text to term ids and on to
//! a sparse vector.

use std::sync::Arc;

use vstd::prelude::*;

use crate::character_filter::CharacterFilterConfig;
use crate::datatype::bm25vector::counts_ids;
use crate::datatype::memory_bm25vector::{Bm25VectorOutput, MAX_VECTOR_LEN};
use crate::model::{concat_ids, valid_model_name, validate_model_name, ModelNameError, TokenizerModel};
use crate::pool::ObjectPool;
use crate::pre_tokenizer::PreTokenizerConfig;
use crate::text::views;
use crate::text_analyzer::{
    built_from, stages_ok, TextAnalyzer, TextAnalyzerConfig, TextAnalyzerError,
};
use crate::token_filter::stopwords::StopwordsTokenFilter;
use crate::token_filter::synonym::SynonymTokenFilter;
use crate::token_filter::TokenFilterConfig;

verus! {

/// The published objects of every kind, by name.
pub struct Catalog {
    pub models: ObjectPool<TokenizerModel>,
    pub text_analyzers: ObjectPool<TextAnalyzer>,
    pub tokenizers: ObjectPool<Tokenizer>,
    pub stopwords: ObjectPool<StopwordsTokenFilter>,
    pub synonyms: ObjectPool<SynonymTokenFilter>,
}

impl Catalog {
    pub open spec fn well_formed(self) -> bool {
        &&& self.models.well_formed()
        &&& self.text_analyzers.well_formed()
        &&& self.tokenizers.well_formed()
        &&& self.stopwords.well_formed()
        &&& self.synonyms.well_formed()
    }

    /// A catalog with nothing published.
    pub fn new() -> (r: Self)
        ensures
            r.well_formed(),
            r.models.view().is_empty(),
            r.text_analyzers.view().is_empty(),
            r.tokenizers.view().is_empty(),
            r.stopwords.view().is_empty(),
            r.synonyms.view().is_empty(),
    {
        let r = Catalog {
            models: ObjectPool::new(),
            text_analyzers: ObjectPool::new(),
            tokenizers: ObjectPool::new(),
            stopwords: ObjectPool::new(),
            synonyms: ObjectPool::new(),
        };
        assert(r.models.view() =~= Map::empty());
        r
    }
}

/// A tokenizer's configuration: a named analyzer or inline stages, and a
/// model by name.
#[derive(Clone, Debug)]
pub struct TokenizerConfig {
    pub text_analyzer: Option<String>,
    pub character_filters: Vec<CharacterFilterConfig>,
    pub pre_tokenizer: Option<PreTokenizerConfig>,
    pub token_filters: Vec<TokenFilterConfig>,
    pub model: String,
}

/// Whether the configuration defines stages inline.
pub open spec fn inline_defined(config: TokenizerConfig) -> bool {
    config.character_filters@.len() > 0 || config.pre_tokenizer is Some
        || config.token_filters@.len() > 0
}

/// Why a tokenizer could not be built.
#[derive(Clone, Debug, PartialEq, Eq)]
pub enum TokenizerError {
    /// Both a named analyzer and inline stages are given.
    BothAnalyzers,
    /// No analyzer is published under this name.
    TextAnalyzerNotFound(String),
    TextAnalyzer(TextAnalyzerError),
    InvalidModelName(ModelNameError),
    /// No model is published under this name.
    ModelNotFound(String),
}

impl TokenizerConfig {
    /// Refuses a configuration that names an analyzer and also gives stages.
    pub fn validate_text_analyzer(&self) -> (r: Result<(), TokenizerError>)
        ensures
            r is Ok <==> !(self.text_analyzer is Some && inline_defined(*self)),
            r is Err ==> r == Err::<(), _>(TokenizerError::BothAnalyzers),
    {
        let external_defined = self.text_analyzer.is_some();
        let inline = self.character_filters.len() > 0 || self.pre_tokenizer.is_some()
            || self.token_filters.len() > 0;
        if external_defined && inline {
            return Err(TokenizerError::BothAnalyzers);
        }
        Ok(())
    }
}

/// Whether a tokenizer configuration can be built against the catalog.
pub open spec fn tokenizer_config_ok(config: TokenizerConfig, catalog: Catalog) -> bool {
    &&& !(config.text_analyzer is Some && inline_defined(config))
    &&& match config.text_analyzer {
        Some(name) => catalog.text_analyzers.view().contains_key(name@),
        None => stages_ok(
            config.pre_tokenizer,
            config.token_filters@,
            catalog.stopwords.view(),
            catalog.synonyms.view(),
        ),
    }
    &&& valid_model_name(config.model@)
    &&& catalog.models.view().contains_key(config.model@)
}

/// An analyzer and a model.
pub struct Tokenizer {
    pub text_analyzer: Arc<TextAnalyzer>,
    pub model: Arc<TokenizerModel>,
}

/// Why a text could not be turned into a vector.
#[derive(Clone, Debug, PartialEq, Eq)]
pub enum TokenizeError {
    /// The model failed on a token, for this reason.
    Model(String),
    /// The text has more tokens, or more distinct ids, than a vector holds.
    TooManyTokens,
}

/// What is known of the ids of a text: the analyzer's tokens, each mapped by
/// the model to some ids, in order.
pub open spec fn ids_of_text(tokenizer: Tokenizer, text: Seq<char>, ids: Seq<u32>) -> bool {
    exists|parts: Seq<Seq<u32>>|
        {
            &&& parts.len() == tokenizer.text_analyzer.spec_analyze(text).len()
            &&& ids == concat_ids(parts)
        }
}

impl Tokenizer {
    /// Builds a tokenizer, taking the named analyzer, the model and the named
    /// sets from the catalog.
    pub fn build(config: TokenizerConfig, catalog: &Catalog) -> (r: Result<Tokenizer, TokenizerError>)
        requires
            catalog.well_formed(),
        ensures
            r is Ok <==> tokenizer_config_ok(config, *catalog),
            r == Err::<Tokenizer, _>(TokenizerError::BothAnalyzers) <==> (
            config.text_analyzer is Some && inline_defined(config)),
            r matches Ok(t) ==> t.model == catalog.models.view()[config.model@],
            r matches Ok(t) ==> (config.text_analyzer matches Some(name) ==> t.text_analyzer
                == catalog.text_analyzers.view()[name@]),
            r matches Ok(t) ==> (config.text_analyzer is None ==> built_from(
                *t.text_analyzer,
                config.character_filters@,
                config.pre_tokenizer,
                config.token_filters@,
                catalog.stopwords.view(),
                catalog.synonyms.view(),
            )),
    {
        let ghost cfg = config;
        if let Err(e) = config.validate_text_analyzer() {
            return Err(e);
        }
        let TokenizerConfig { text_analyzer, character_filters, pre_tokenizer, token_filters, model } =
            config;
        let analyzer = match text_analyzer {
            Some(name) => match catalog.text_analyzers.get(name.as_str()) {
                Some(a) => a,
                None => {
                    return Err(TokenizerError::TextAnalyzerNotFound(name));
                },
            },
            None => {
                let inline = TextAnalyzerConfig { character_filters, pre_tokenizer, token_filters };
                match TextAnalyzer::build(inline, &catalog.stopwords, &catalog.synonyms) {
                    Ok(a) => Arc::new(a),
                    Err(e) => {
                        return Err(TokenizerError::TextAnalyzer(e));
                    },
                }
            },
        };
        if let Err(e) = validate_model_name(model.as_str()) {
            return Err(TokenizerError::InvalidModelName(e));
        }
        match catalog.models.get(model.as_str()) {
            Some(m) => Ok(Tokenizer { text_analyzer: analyzer, model: m }),
            None => Err(TokenizerError::ModelNotFound(model)),
        }
    }

    /// The term ids of a text: the analyzer's tokens, each mapped by the
    /// model, in order.
    pub fn tokenize(&self, text: &str) -> (r: Result<Vec<u32>, String>)
        ensures
            r matches Ok(ids) ==> ids_of_text(*self, text@, ids@),
            self.text_analyzer.spec_analyze(text@).len() == 0 ==> (r matches Ok(ids)
                && ids@.len() == 0),
    {
        let tokens = self.text_analyzer.apply(text);
        assert(tokens@.len() == views(tokens@).len());
        let r = self.model.apply_batch(&tokens);
        match r {
            Ok(ids) => {
                proof {
                    let parts = choose|parts: Seq<Seq<u32>>|
                        parts.len() == tokens@.len() && ids@ == concat_ids(parts);
                    assert(ids_of_text(*self, text@, ids@));
                }
                Ok(ids)
            },
            Err(e) => Err(e),
        }
    }
}

/// Turns a text into its sparse vector: each distinct term id with its
/// number of occurrences.
pub fn tokenize(text: &str, tokenizer: &Tokenizer) -> (r: Result<Bm25VectorOutput, TokenizeError>)
    ensures
        r matches Ok(v) ==> exists|ids: Seq<u32>|
            {
                &&& counts_ids(ids, v.spec_indexes(), v.spec_values())
                &&& v.spec_doc_len() as int == ids.len()
                &&& ids_of_text(*tokenizer, text@, ids)
            },
        tokenizer.text_analyzer.spec_analyze(text@).len() == 0 ==> (r matches Ok(v)
            && v.spec_doc_len() == 0),
        r matches Err(TokenizeError::TooManyTokens) ==> exists|ids: Seq<u32>|
            ids_of_text(*tokenizer, text@, ids) && (ids.len() > u32::MAX || ids.to_set().len()
                > MAX_VECTOR_LEN),
{
    let ids = match tokenizer.tokenize(text) {
        Ok(ids) => ids,
        Err(e) => {
            return Err(TokenizeError::Model(e));
        },
    };
    if ids.len() > u32::MAX as usize {
        return Err(TokenizeError::TooManyTokens);
    }
    proof {
        if ids@.len() == 0 {
            assert(ids@.to_set() =~= Set::<u32>::empty());
        }
    }
    match Bm25VectorOutput::from_ids(ids.as_slice()) {
        Some(v) => Ok(v),
        None => Err(TokenizeError::TooManyTokens),
    }
}

} // verus!
