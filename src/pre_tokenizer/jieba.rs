//! Chinese segmentation with a dictionary and, optionally, a hidden Markov
//! model for words the dictionary lacks.

use vstd::prelude::*;

use jieba_rs::Jieba;

use crate::text::views;

verus! {

#[verifier::external_type_specification]
#[verifier::external_body]
pub struct ExJieba(jieba_rs::Jieba);

/// Relies on `Jieba::new`: a segmenter with the built-in dictionary.
#[verifier::external_body]
fn new_segmenter() -> Jieba {
    Jieba::new()
}

/// Every dictionary word of the text, as `Jieba::cut_all` finds it with the
/// built-in dictionary.
pub uninterp spec fn jieba_cut_all_of(text: Seq<char>) -> Seq<Seq<char>>;

/// The single best segmentation, as `Jieba::cut` finds it with the built-in
/// dictionary.
pub uninterp spec fn jieba_cut_of(text: Seq<char>, hmm: bool) -> Seq<Seq<char>>;

/// The best segmentation plus the shorter words inside long ones, as
/// `Jieba::cut_for_search` finds it with the built-in dictionary.
pub uninterp spec fn jieba_cut_for_search_of(text: Seq<char>, hmm: bool) -> Seq<Seq<char>>;

/// Relies on `Jieba::cut_all`: every dictionary word found in the text. The
/// only segmenters here come from `Jieba::new`, with the built-in dictionary.
#[verifier::external_body]
fn cut_all(jieba: &Jieba, text: &str) -> (r: Vec<String>)
    ensures
        views(r@) == jieba_cut_all_of(text@),
{
    jieba.cut_all(text).into_iter().map(|w| w.to_string()).collect()
}

/// Relies on `Jieba::cut`: the single best segmentation.
#[verifier::external_body]
fn cut(jieba: &Jieba, text: &str, hmm: bool) -> (r: Vec<String>)
    ensures
        views(r@) == jieba_cut_of(text@, hmm),
{
    jieba.cut(text, hmm).into_iter().map(|w| w.to_string()).collect()
}

/// Relies on `Jieba::cut_for_search`: the best segmentation plus the shorter
/// words inside long ones.
#[verifier::external_body]
fn cut_for_search(jieba: &Jieba, text: &str, hmm: bool) -> (r: Vec<String>)
    ensures
        views(r@) == jieba_cut_for_search_of(text@, hmm),
{
    jieba.cut_for_search(text, hmm).into_iter().map(|w| w.to_string()).collect()
}

/// The segmentation granularity.
#[derive(Clone, Copy, Debug, PartialEq, Eq)]
pub enum JiebaMode {
    /// Every possible word.
    Full,
    /// The single best segmentation.
    Precise,
    /// The best segmentation and the shorter words inside long ones.
    Search,
}

/// Settings of the segmenter.
#[derive(Clone, Copy, Debug, PartialEq, Eq)]
pub struct JiebaConfig {
    pub mode: JiebaMode,
    pub enable_hmm: bool,
}

impl JiebaConfig {
    /// Search mode with the hidden Markov model on.
    pub fn default() -> (r: Self)
        ensures
            r.mode == JiebaMode::Search,
            r.enable_hmm,
    {
        JiebaConfig { mode: JiebaMode::Search, enable_hmm: true }
    }
}

/// Splits text into Chinese words.
pub struct JiebaPreTokenizer {
    jieba: Jieba,
    mode: JiebaMode,
    enable_hmm: bool,
}

impl JiebaPreTokenizer {
    pub closed spec fn spec_mode(self) -> JiebaMode {
        self.mode
    }

    pub closed spec fn spec_enable_hmm(self) -> bool {
        self.enable_hmm
    }

    /// The words of the text at a granularity.
    pub open spec fn spec_pre_tokenize(self, text: Seq<char>) -> Seq<Seq<char>> {
        match self.spec_mode() {
            JiebaMode::Full => jieba_cut_all_of(text),
            JiebaMode::Precise => jieba_cut_of(text, self.spec_enable_hmm()),
            JiebaMode::Search => jieba_cut_for_search_of(text, self.spec_enable_hmm()),
        }
    }

    /// The words of the text, at the configured granularity.
    pub fn pre_tokenize(&self, text: &str) -> (r: Vec<String>)
        ensures
            self.spec_mode() == JiebaMode::Full ==> views(r@) == jieba_cut_all_of(text@),
            self.spec_mode() == JiebaMode::Precise ==> views(r@) == jieba_cut_of(
                text@,
                self.spec_enable_hmm(),
            ),
            self.spec_mode() == JiebaMode::Search ==> views(r@) == jieba_cut_for_search_of(
                text@,
                self.spec_enable_hmm(),
            ),
            views(r@) == self.spec_pre_tokenize(text@),
    {
        match self.mode {
            JiebaMode::Full => cut_all(&self.jieba, text),
            JiebaMode::Precise => cut(&self.jieba, text, self.enable_hmm),
            JiebaMode::Search => cut_for_search(&self.jieba, text, self.enable_hmm),
        }
    }
}

/// Builds the segmenter a configuration describes.
pub fn create_jieba_pre_tokenizer(config: JiebaConfig) -> (r: JiebaPreTokenizer)
    ensures
        r.spec_mode() == config.mode,
        r.spec_enable_hmm() == config.enable_hmm,
{
    JiebaPreTokenizer { jieba: new_segmenter(), mode: config.mode, enable_hmm: config.enable_hmm }
}

} // verus!
