//! Pre-tokenizers: split the filtered text into token candidates.

pub mod jieba;
pub mod regex;
pub mod unicode_segmentation;

use vstd::prelude::*;

use crate::text::views;
use jieba::{create_jieba_pre_tokenizer, JiebaConfig, JiebaPreTokenizer};
use regex::{regex_compiles, regex_matches_of, RegexPreTokenizer};
use unicode_segmentation::{unicode_words_of, UnicodeSegmentationPretokenizer};

verus! {

/// A pre-tokenizer, one variant per kind.
pub enum PreTokenizer {
    Regex(RegexPreTokenizer),
    UnicodeSegmentation(UnicodeSegmentationPretokenizer),
    Jieba(JiebaPreTokenizer),
}

/// The configuration of a pre-tokenizer.
#[derive(Clone, Debug)]
pub enum PreTokenizerConfig {
    /// The matches of this pattern.
    Regex(String),
    UnicodeSegmentation,
    Jieba(JiebaConfig),
}

/// Whether a configuration can be built.
pub open spec fn pre_tokenizer_config_ok(config: PreTokenizerConfig) -> bool {
    match config {
        PreTokenizerConfig::Regex(pattern) => regex_compiles(pattern@),
        _ => true,
    }
}

/// The pre-tokenizer is the one the configuration describes: same kind, same
/// pattern, same Jieba mode and model switch.
pub open spec fn pre_tokenizer_of(config: PreTokenizerConfig, p: PreTokenizer) -> bool {
    match config {
        PreTokenizerConfig::Regex(pattern) => p matches PreTokenizer::Regex(r)
            && r.spec_pattern() == pattern@,
        PreTokenizerConfig::UnicodeSegmentation => p is UnicodeSegmentation,
        PreTokenizerConfig::Jieba(c) => p matches PreTokenizer::Jieba(j) && j.spec_mode()
            == c.mode && j.spec_enable_hmm() == c.enable_hmm,
    }
}

impl PreTokenizer {
    /// The spans of a text.
    pub open spec fn spec_pre_tokenize(self, text: Seq<char>) -> Seq<Seq<char>> {
        match self {
            PreTokenizer::Regex(p) => regex_matches_of(p.spec_pattern(), text),
            PreTokenizer::UnicodeSegmentation(_) => unicode_words_of(text),
            PreTokenizer::Jieba(p) => p.spec_pre_tokenize(text),
        }
    }

    /// Splits the text into spans, in order.
    pub fn pre_tokenize(&self, text: &str) -> (r: Vec<String>)
        ensures
            views(r@) == self.spec_pre_tokenize(text@),
    {
        match self {
            PreTokenizer::Regex(p) => p.pre_tokenize(text),
            PreTokenizer::UnicodeSegmentation(p) => p.pre_tokenize(text),
            PreTokenizer::Jieba(p) => p.pre_tokenize(text),
        }
    }
}

/// Two pre-tokenizers built from one configuration split every text alike.
pub proof fn lemma_same_config_same_spans(
    config: PreTokenizerConfig,
    p1: PreTokenizer,
    p2: PreTokenizer,
    text: Seq<char>,
)
    requires
        pre_tokenizer_of(config, p1),
        pre_tokenizer_of(config, p2),
    ensures
        p1.spec_pre_tokenize(text) == p2.spec_pre_tokenize(text),
{
}

/// Builds the pre-tokenizer a configuration names; an invalid pattern is
/// refused with the reason.
pub fn get_pre_tokenizer(config: PreTokenizerConfig) -> (r: Result<PreTokenizer, String>)
    ensures
        r is Ok <==> pre_tokenizer_config_ok(config),
        r matches Ok(p) ==> pre_tokenizer_of(config, p),
{
    match config {
        PreTokenizerConfig::Regex(pattern) => match RegexPreTokenizer::new(pattern.as_str()) {
            Ok(p) => Ok(PreTokenizer::Regex(p)),
            Err(e) => Err(e),
        },
        PreTokenizerConfig::UnicodeSegmentation => Ok(
            PreTokenizer::UnicodeSegmentation(UnicodeSegmentationPretokenizer),
        ),
        PreTokenizerConfig::Jieba(c) => Ok(PreTokenizer::Jieba(create_jieba_pre_tokenizer(c))),
    }
}

} // verus!
