use std::borrow::Cow;
use std::sync::Arc;

use pg_tokenizer::character_filter::unicode_normalization::UnicodeNormalizationConfig;
use pg_tokenizer::character_filter::{get_character_filter, CharacterFilterConfig};
use pg_tokenizer::pool::ObjectPool;
use pg_tokenizer::pre_tokenizer::jieba::{JiebaConfig, JiebaMode};
use pg_tokenizer::pre_tokenizer::{get_pre_tokenizer, PreTokenizerConfig};
use pg_tokenizer::text::{lines, split_whitespace};
use pg_tokenizer::token_filter::ngram::{Ngram, NgramConfig, NgramConfigError};
use pg_tokenizer::token_filter::skip_non_alphanumeric::SkipNonAlphanumeric;
use pg_tokenizer::token_filter::stemmer::{StemmerKind, StemmerTokenFilter};
use pg_tokenizer::token_filter::stopwords::StopwordsTokenFilter;
use pg_tokenizer::token_filter::synonym::{SynonymError, SynonymTokenFilter};
use pg_tokenizer::token_filter::{get_token_filter, TokenFilterConfig, TokenFilterError};

fn ngram(min_gram: usize, max_gram: usize, preserve_original: bool) -> Ngram {
    Ngram::new(NgramConfig { max_gram, min_gram, preserve_original }).unwrap()
}

#[test]
fn ngram_of_two_letters() {
    let out = ngram(1, 3, false).apply("ab".to_string());
    assert_eq!(out, vec!["a", "ab", "b"]);
}

#[test]
fn ngram_short_token_preserved_once() {
    let out = ngram(3, 4, true).apply("ab".to_string());
    assert_eq!(out, vec!["ab"]);
}

#[test]
fn ngram_short_token_dropped_without_preserve() {
    let out = ngram(3, 4, false).apply("ab".to_string());
    assert!(out.is_empty());
}

#[test]
fn ngram_bigrams_of_word() {
    let out = ngram(2, 2, false).apply("abcd".to_string());
    assert_eq!(out, vec!["ab", "bc", "cd"]);
}

#[test]
fn ngram_long_token_preserved_after_grams() {
    let out = ngram(1, 2, true).apply("abc".to_string());
    assert_eq!(out, vec!["a", "ab", "b", "bc", "c", "abc"]);
}

#[test]
fn ngram_in_range_token_not_repeated() {
    let out = ngram(1, 3, true).apply("ab".to_string());
    assert_eq!(out, vec!["a", "ab", "b"]);
}

#[test]
fn ngram_counts_characters() {
    let out = ngram(1, 1, false).apply("日本".to_string());
    assert_eq!(out, vec!["日", "本"]);
}

#[test]
fn ngram_defaults() {
    assert_eq!(NgramConfig::default_min_gram(), 1);
    assert_eq!(NgramConfig::default_max_gram(), 2);
    assert!(!NgramConfig::default_preserve_original());
}

#[test]
fn ngram_config_errors() {
    let c = |min_gram, max_gram| NgramConfig { max_gram, min_gram, preserve_original: false };
    assert_eq!(Ngram::new(c(0, 2)).err(), Some(NgramConfigError::MinGramOutOfRange));
    assert_eq!(Ngram::new(c(256, 300)).err(), Some(NgramConfigError::MinGramOutOfRange));
    assert_eq!(Ngram::new(c(1, 256)).err(), Some(NgramConfigError::MaxGramOutOfRange));
    assert_eq!(Ngram::new(c(1, 0)).err(), Some(NgramConfigError::MaxGramOutOfRange));
    assert_eq!(Ngram::new(c(3, 2)).err(), Some(NgramConfigError::MinGreaterThanMax));
    assert!(Ngram::new(c(255, 255)).is_ok());
}

#[test]
fn stopword_dropped_other_kept() {
    let f = StopwordsTokenFilter::build("the\na\nof");
    assert!(f.apply("the".to_string()).is_empty());
    assert_eq!(f.apply("cat".to_string()), vec!["cat"]);
    assert_eq!(f.apply("The".to_string()), vec!["The"]);
}

#[test]
fn stopwords_lines_strip_carriage_return() {
    let f = StopwordsTokenFilter::build("and\r\nor\n");
    assert!(f.apply("and".to_string()).is_empty());
    assert!(f.apply("or".to_string()).is_empty());
    assert_eq!(f.apply("".to_string()), vec![""]);
}

#[test]
fn lines_split_like_str_lines() {
    assert_eq!(lines("a\nb\r\n\nc"), vec!["a", "b", "", "c"]);
    assert_eq!(lines("a\n"), vec!["a"]);
    assert!(lines("").is_empty());
    assert_eq!(lines("x\r"), vec!["x\r"]);
}

#[test]
fn whitespace_words() {
    assert_eq!(split_whitespace("  run  jog\tsprint\u{3000}dash "), vec!["run", "jog", "sprint", "dash"]);
    assert!(split_whitespace(" \t ").is_empty());
}

#[test]
fn synonym_replaced_by_canonical() {
    let f = SynonymTokenFilter::build("run jog sprint\nfast quick").unwrap();
    assert_eq!(f.apply("jog".to_string()), vec!["run"]);
    assert_eq!(f.apply("sprint".to_string()), vec!["run"]);
    assert_eq!(f.apply("quick".to_string()), vec!["fast"]);
    assert_eq!(f.apply("run".to_string()), vec!["run"]);
    assert_eq!(f.apply("walk".to_string()), vec!["walk"]);
}

#[test]
fn synonym_duplicate_refused() {
    let e = SynonymTokenFilter::build("run jog\nwalk jog").err().unwrap();
    assert_eq!(e, SynonymError::Duplicate("jog".to_string()));
    let e = SynonymTokenFilter::build("run run").err().unwrap();
    assert_eq!(e, SynonymError::Duplicate("run".to_string()));
    assert!(SynonymTokenFilter::build("\n\nrun jog\n").is_ok());
}

#[test]
fn skip_non_alphanumeric_drops_punctuation() {
    let f = SkipNonAlphanumeric;
    assert!(f.apply("!?".to_string()).is_empty());
    assert!(f.apply("".to_string()).is_empty());
    assert_eq!(f.apply("a-b".to_string()), vec!["a-b"]);
    assert_eq!(f.apply("42".to_string()), vec!["42"]);
    assert_eq!(f.apply("é".to_string()), vec!["é"]);
}

#[test]
fn english_stemmer() {
    let f = StemmerTokenFilter::new(StemmerKind::EnglishPorter2).unwrap();
    assert_eq!(f.apply("runners".to_string()), vec!["runner"]);
    assert_eq!(f.apply("running".to_string()), vec!["run"]);
    assert!(StemmerTokenFilter::new(StemmerKind::Yiddish).is_none());
}

#[test]
fn token_filter_from_config() {
    let mut stopwords: ObjectPool<StopwordsTokenFilter> = ObjectPool::new();
    let synonyms: ObjectPool<SynonymTokenFilter> = ObjectPool::new();
    stopwords.insert_new("english", Arc::new(StopwordsTokenFilter::build("the")));
    let f = get_token_filter(TokenFilterConfig::Stopwords("english".to_string()), &stopwords, &synonyms).ok().unwrap();
    assert_eq!(f.apply_batch(vec!["the".to_string(), "cat".to_string(), "the".to_string()]), vec!["cat"]);
    let e = get_token_filter(TokenFilterConfig::Synonym("none".to_string()), &stopwords, &synonyms).err();
    assert_eq!(e, Some(TokenFilterError::SynonymNotFound("none".to_string())));
    let e = get_token_filter(TokenFilterConfig::PgDict("simple".to_string()), &stopwords, &synonyms).err();
    assert_eq!(e, Some(TokenFilterError::DictionaryUnavailable("simple".to_string())));
    let e = get_token_filter(TokenFilterConfig::Stemmer(StemmerKind::Basque), &stopwords, &synonyms).err();
    assert_eq!(e, Some(TokenFilterError::UnsupportedStemmer(StemmerKind::Basque)));
    let e = get_token_filter(TokenFilterConfig::Stopwords("german".to_string()), &stopwords, &synonyms).err();
    assert_eq!(e, Some(TokenFilterError::StopwordsNotFound("german".to_string())));
    let c = NgramConfig { max_gram: 1, min_gram: 2, preserve_original: false };
    let e = get_token_filter(TokenFilterConfig::NGram(c), &stopwords, &synonyms).err();
    assert_eq!(e, Some(TokenFilterError::InvalidNgram(NgramConfigError::MinGreaterThanMax)));
}

#[test]
fn ngram_batch_flattens_in_order() {
    let mut stopwords: ObjectPool<StopwordsTokenFilter> = ObjectPool::new();
    stopwords.remove("nothing");
    let synonyms: ObjectPool<SynonymTokenFilter> = ObjectPool::new();
    let c = NgramConfig { max_gram: 2, min_gram: 2, preserve_original: false };
    let f = get_token_filter(TokenFilterConfig::NGram(c), &stopwords, &synonyms).ok().unwrap();
    assert_eq!(f.apply_batch(vec!["abc".to_string(), "x".to_string(), "de".to_string()]), vec!["ab", "bc", "de"]);
}

#[test]
fn character_filters_rewrite_text() {
    let lower = get_character_filter(CharacterFilterConfig::ToLowercase);
    assert_eq!(lower.apply("ÀB C"), "àb c");
    let nfd = get_character_filter(CharacterFilterConfig::UnicodeNormalization(UnicodeNormalizationConfig::NFD));
    assert_eq!(nfd.apply("é"), "e\u{301}");
    let nfc = get_character_filter(CharacterFilterConfig::UnicodeNormalization(UnicodeNormalizationConfig::NFC));
    assert_eq!(nfc.apply("e\u{301}"), "é");
    let nfkc = get_character_filter(CharacterFilterConfig::UnicodeNormalization(UnicodeNormalizationConfig::NFKC));
    assert_eq!(nfkc.apply("ﬁ"), "fi");
    let nfkd = get_character_filter(CharacterFilterConfig::UnicodeNormalization(UnicodeNormalizationConfig::NFKD));
    assert_eq!(nfkd.apply("①"), "1");
}

#[test]
fn unicode_segmentation_words() {
    let p = get_pre_tokenizer(PreTokenizerConfig::UnicodeSegmentation).ok().unwrap();
    assert_eq!(p.pre_tokenize("Hello, world! It's 42."), vec!["Hello", "world", "It's", "42"]);
}

#[test]
fn regex_pre_tokenizer_matches() {
    let p = get_pre_tokenizer(PreTokenizerConfig::Regex(r"\w+".to_string())).ok().unwrap();
    assert_eq!(p.pre_tokenize("a-bc d"), vec!["a", "bc", "d"]);
    assert!(get_pre_tokenizer(PreTokenizerConfig::Regex("(".to_string())).is_err());
}

#[test]
fn jieba_segments_chinese() {
    let config = JiebaConfig { mode: JiebaMode::Precise, enable_hmm: true };
    let p = get_pre_tokenizer(PreTokenizerConfig::Jieba(config)).ok().unwrap();
    let words = p.pre_tokenize("我们中出了一个叛徒");
    assert_eq!(words.concat(), "我们中出了一个叛徒");
    assert!(words.len() > 1);
    let d = JiebaConfig::default();
    assert_eq!(d.mode, JiebaMode::Search);
    assert!(d.enable_hmm);
}

#[test]
fn character_filter_borrows_unchanged_text() {
    let lower = get_character_filter(CharacterFilterConfig::ToLowercase);
    assert!(matches!(lower.apply("already lower"), Cow::Borrowed("already lower")));
    assert!(matches!(lower.apply("Not lower"), Cow::Owned(_)));
    let nfc = get_character_filter(CharacterFilterConfig::UnicodeNormalization(UnicodeNormalizationConfig::NFC));
    assert!(matches!(nfc.apply("plain"), Cow::Borrowed(_)));
}

#[test]
fn jieba_modes_differ() {
    let text = "我们中出了一个叛徒";
    let full = get_pre_tokenizer(PreTokenizerConfig::Jieba(JiebaConfig { mode: JiebaMode::Full, enable_hmm: true })).ok().unwrap();
    let precise = get_pre_tokenizer(PreTokenizerConfig::Jieba(JiebaConfig { mode: JiebaMode::Precise, enable_hmm: false })).ok().unwrap();
    let search = get_pre_tokenizer(PreTokenizerConfig::Jieba(JiebaConfig { mode: JiebaMode::Search, enable_hmm: false })).ok().unwrap();
    let all = full.pre_tokenize(text);
    let best = precise.pre_tokenize(text);
    let more = search.pre_tokenize(text);
    assert_eq!(best.concat(), text);
    assert!(all.len() >= best.len());
    assert!(more.len() >= best.len());
    for word in &best {
        assert!(more.contains(word));
    }
}

#[test]
fn regex_pre_tokenizer_is_repeatable() {
    let p = get_pre_tokenizer(PreTokenizerConfig::Regex("[a-z]+".to_string())).ok().unwrap();
    assert_eq!(p.pre_tokenize("ab1cd"), p.pre_tokenize("ab1cd"));
    assert_eq!(p.pre_tokenize("ab1cd"), vec!["ab", "cd"]);
}
