use std::sync::Arc;

use pg_tokenizer::character_filter::CharacterFilterConfig;
use pg_tokenizer::model::huggingface::HuggingFaceModel;
use pg_tokenizer::model::{
    build_model, ModelConfig,
    is_builtin_model, validate_model_name, validate_new_model_name, ModelNameError, TokenizerModel,
};
use pg_tokenizer::pool::ObjectPool;
use pg_tokenizer::pre_tokenizer::PreTokenizerConfig;
use pg_tokenizer::text_analyzer::{TextAnalyzer, TextAnalyzerConfig, TextAnalyzerError};
use pg_tokenizer::token_filter::stemmer::StemmerKind;
use pg_tokenizer::token_filter::stopwords::StopwordsTokenFilter;
use pg_tokenizer::token_filter::synonym::SynonymTokenFilter;
use pg_tokenizer::token_filter::{TokenFilterConfig, TokenFilterError};
use pg_tokenizer::tokenizer::{tokenize, Catalog, Tokenizer, TokenizerConfig, TokenizerError};

const WORD_LEVEL: &str = r#"{
  "version": "1.0",
  "truncation": null,
  "padding": null,
  "added_tokens": [],
  "normalizer": null,
  "pre_tokenizer": null,
  "post_processor": null,
  "decoder": null,
  "model": {
    "type": "WordLevel",
    "vocab": {"the": 0, "runner": 1, "ran": 2, "[UNK]": 3},
    "unk_token": "[UNK]"
  }
}"#;

fn english_analyzer_config() -> TextAnalyzerConfig {
    TextAnalyzerConfig {
        character_filters: vec![CharacterFilterConfig::ToLowercase],
        pre_tokenizer: Some(PreTokenizerConfig::UnicodeSegmentation),
        token_filters: vec![
            TokenFilterConfig::SkipNonAlphanumeric,
            TokenFilterConfig::Stemmer(StemmerKind::EnglishPorter2),
        ],
    }
}

#[test]
fn analyzer_end_to_end_tokens() {
    let stopwords: ObjectPool<StopwordsTokenFilter> = ObjectPool::new();
    let synonyms: ObjectPool<SynonymTokenFilter> = ObjectPool::new();
    let analyzer = TextAnalyzer::build(english_analyzer_config(), &stopwords, &synonyms).ok().unwrap();
    assert_eq!(analyzer.apply("The Runners RAN!"), vec!["the", "runner", "ran"]);
}

#[test]
fn analyzer_is_deterministic() {
    let stopwords: ObjectPool<StopwordsTokenFilter> = ObjectPool::new();
    let synonyms: ObjectPool<SynonymTokenFilter> = ObjectPool::new();
    let analyzer = TextAnalyzer::build(english_analyzer_config(), &stopwords, &synonyms).ok().unwrap();
    let text = "Jumping foxes, jumping dogs.";
    assert_eq!(analyzer.apply(text), analyzer.apply(text));
}

#[test]
fn analyzer_without_pre_tokenizer_keeps_whole_text() {
    let stopwords: ObjectPool<StopwordsTokenFilter> = ObjectPool::new();
    let synonyms: ObjectPool<SynonymTokenFilter> = ObjectPool::new();
    let config = TextAnalyzerConfig {
        character_filters: vec![CharacterFilterConfig::ToLowercase],
        pre_tokenizer: None,
        token_filters: vec![],
    };
    let analyzer = TextAnalyzer::build(config, &stopwords, &synonyms).ok().unwrap();
    assert_eq!(analyzer.apply("Hello World"), vec!["hello world"]);
}

#[test]
fn analyzer_with_synonyms_and_stopwords() {
    let mut stopwords: ObjectPool<StopwordsTokenFilter> = ObjectPool::new();
    let mut synonyms: ObjectPool<SynonymTokenFilter> = ObjectPool::new();
    stopwords.insert_new("small", Arc::new(StopwordsTokenFilter::build("the\na")));
    synonyms.insert_new("moves", Arc::new(SynonymTokenFilter::build("run jog sprint").unwrap()));
    let config = TextAnalyzerConfig {
        character_filters: vec![],
        pre_tokenizer: Some(PreTokenizerConfig::UnicodeSegmentation),
        token_filters: vec![
            TokenFilterConfig::Stopwords("small".to_string()),
            TokenFilterConfig::Synonym("moves".to_string()),
        ],
    };
    let analyzer = TextAnalyzer::build(config, &stopwords, &synonyms).ok().unwrap();
    assert_eq!(analyzer.apply("the dogs jog a mile"), vec!["dogs", "run", "mile"]);
}

#[test]
fn analyzer_build_errors() {
    let stopwords: ObjectPool<StopwordsTokenFilter> = ObjectPool::new();
    let synonyms: ObjectPool<SynonymTokenFilter> = ObjectPool::new();
    let bad_pattern = TextAnalyzerConfig {
        character_filters: vec![],
        pre_tokenizer: Some(PreTokenizerConfig::Regex("[".to_string())),
        token_filters: vec![],
    };
    match TextAnalyzer::build(bad_pattern, &stopwords, &synonyms) {
        Err(TextAnalyzerError::InvalidPattern(_)) => {}
        _ => panic!("pattern accepted"),
    }
    let missing = TextAnalyzerConfig {
        character_filters: vec![],
        pre_tokenizer: None,
        token_filters: vec![TokenFilterConfig::Stopwords("nope".to_string())],
    };
    match TextAnalyzer::build(missing, &stopwords, &synonyms) {
        Err(TextAnalyzerError::TokenFilter(TokenFilterError::StopwordsNotFound(n))) => assert_eq!(n, "nope"),
        _ => panic!("missing set accepted"),
    }
}

#[test]
fn model_names() {
    assert!(validate_model_name("bert_2").is_ok());
    assert_eq!(validate_model_name("a-b"), Err(ModelNameError::InvalidCharacter('-')));
    assert_eq!(validate_model_name(""), Err(ModelNameError::InvalidLength));
    assert_eq!(validate_model_name("abcdefghijklmnopqrstu"), Err(ModelNameError::InvalidLength));
    assert!(validate_model_name("abcdefghijklmnopqrst").is_ok());
    assert_eq!(validate_model_name("_x"), Err(ModelNameError::NotStartingWithLetter));
    assert_eq!(validate_model_name("9x"), Err(ModelNameError::NotStartingWithLetter));
    assert!(is_builtin_model("bert_base_uncased"));
    assert!(is_builtin_model("llmlingua2"));
    assert!(!is_builtin_model("mine"));
    assert_eq!(validate_new_model_name("gemma2b"), Err(ModelNameError::Reserved));
    assert!(validate_new_model_name("mine").is_ok());
}

#[test]
fn pool_publishes_once() {
    let mut pool: ObjectPool<String> = ObjectPool::new();
    let first = pool.get_or_insert("a", Arc::new("first".to_string()));
    let second = pool.get_or_insert("a", Arc::new("second".to_string()));
    assert!(Arc::ptr_eq(&first, &second));
    assert_eq!(*second, "first");
    let got = pool.get("a").unwrap();
    assert!(Arc::ptr_eq(&first, &got));
    assert!(!pool.insert_new("a", Arc::new("third".to_string())));
    pool.remove("a");
    assert!(pool.get("a").is_none());
    assert!(pool.insert_new("a", Arc::new("fourth".to_string())));
    assert_eq!(*pool.get("a").unwrap(), "fourth");
}

#[test]
fn word_level_model_ids() {
    let model = HuggingFaceModel::new(WORD_LEVEL).ok().unwrap();
    assert_eq!(model.apply("runner").unwrap(), vec![1]);
    assert_eq!(model.apply("walker").unwrap(), vec![3]);
    assert!(HuggingFaceModel::new("{").is_err());
}

#[test]
fn end_to_end_vector() {
    let mut catalog = Catalog::new();
    let model = HuggingFaceModel::new(WORD_LEVEL).ok().unwrap();
    catalog.models.insert_new("words", Arc::new(TokenizerModel::HuggingFace(model)));
    let stages = english_analyzer_config();
    let config = TokenizerConfig {
        text_analyzer: None,
        character_filters: stages.character_filters,
        pre_tokenizer: stages.pre_tokenizer,
        token_filters: stages.token_filters,
        model: "words".to_string(),
    };
    let tokenizer = Tokenizer::build(config, &catalog).ok().unwrap();
    assert_eq!(tokenizer.tokenize("The Runners RAN!").unwrap(), vec![0, 1, 2]);
    let vector = tokenize("The Runners RAN! The runner.", &tokenizer).ok().unwrap();
    let v = vector.borrow();
    assert_eq!(v.len(), 3);
    assert_eq!(v.doc_len(), 5);
    assert_eq!(v.indexes(), &[0, 1, 2]);
    assert_eq!(v.values(), &[2, 2, 1]);
    let empty = tokenize("!!", &tokenizer).ok().unwrap();
    assert_eq!(empty.borrow().doc_len(), 0);
    assert!(empty.borrow().is_empty());
    assert!(tokenizer.tokenize("").unwrap().is_empty());
    let three = tokenize("The Runners RAN!", &tokenizer).ok().unwrap();
    assert_eq!(three.borrow().len(), 3);
    assert_eq!(three.borrow().doc_len(), 3);
}

#[test]
fn tokenizer_build_errors() {
    let mut catalog = Catalog::new();
    let both = TokenizerConfig {
        text_analyzer: Some("named".to_string()),
        character_filters: vec![CharacterFilterConfig::ToLowercase],
        pre_tokenizer: None,
        token_filters: vec![],
        model: "words".to_string(),
    };
    assert_eq!(both.validate_text_analyzer(), Err(TokenizerError::BothAnalyzers));
    assert_eq!(Tokenizer::build(both, &catalog).err(), Some(TokenizerError::BothAnalyzers));
    let named = TokenizerConfig {
        text_analyzer: Some("named".to_string()),
        character_filters: vec![],
        pre_tokenizer: None,
        token_filters: vec![],
        model: "words".to_string(),
    };
    assert_eq!(
        Tokenizer::build(named.clone(), &catalog).err(),
        Some(TokenizerError::TextAnalyzerNotFound("named".to_string()))
    );
    let stopwords: ObjectPool<StopwordsTokenFilter> = ObjectPool::new();
    let synonyms: ObjectPool<SynonymTokenFilter> = ObjectPool::new();
    let analyzer = TextAnalyzer::build(english_analyzer_config(), &stopwords, &synonyms).ok().unwrap();
    catalog.text_analyzers.insert_new("named", Arc::new(analyzer));
    assert_eq!(
        Tokenizer::build(named.clone(), &catalog).err(),
        Some(TokenizerError::ModelNotFound("words".to_string()))
    );
    let mut bad_model = named;
    bad_model.model = "no way".to_string();
    assert_eq!(
        Tokenizer::build(bad_model, &catalog).err(),
        Some(TokenizerError::InvalidModelName(ModelNameError::InvalidCharacter(' ')))
    );
}

#[test]
fn build_model_reports_bad_description() {
    assert!(build_model(&ModelConfig::HuggingFace("not json".to_string())).is_err());
    assert!(build_model(&ModelConfig::HuggingFace(WORD_LEVEL.to_string())).is_ok());
}
