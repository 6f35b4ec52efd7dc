//! The text analyzer: character filters, then a pre-tokenizer, then token
//! filters, turning a text into a sequence of token strings.

use std::borrow::Cow;

use vstd::prelude::*;

use crate::character_filter::{
    character_filter_of, get_character_filter, CharacterFilter, CharacterFilterConfig,
};
use crate::pool::ObjectPool;
use crate::pre_tokenizer::{
    get_pre_tokenizer, pre_tokenizer_config_ok, pre_tokenizer_of, PreTokenizer, PreTokenizerConfig,
};
use crate::text::{cow_str, views};
use crate::token_filter::stopwords::StopwordsTokenFilter;
use crate::token_filter::synonym::SynonymTokenFilter;
use crate::token_filter::{
    get_token_filter, token_filter_built, token_filter_config_ok, TokenFilter, TokenFilterConfig,
    TokenFilterError,
};

verus! {

/// The stages of an analyzer, as configured.
#[derive(Clone, Debug)]
pub struct TextAnalyzerConfig {
    pub character_filters: Vec<CharacterFilterConfig>,
    pub pre_tokenizer: Option<PreTokenizerConfig>,
    pub token_filters: Vec<TokenFilterConfig>,
}

/// Why an analyzer could not be built.
#[derive(Clone, Debug, PartialEq, Eq)]
pub enum TextAnalyzerError {
    /// The pre-tokenizer's pattern was refused, for this reason.
    InvalidPattern(String),
    TokenFilter(TokenFilterError),
}

/// A built analyzer.
pub struct TextAnalyzer {
    pub character_filters: Vec<CharacterFilter>,
    pub pre_tokenizer: Option<PreTokenizer>,
    pub token_filters: Vec<TokenFilter>,
}

/// The text after each character filter in turn.
pub open spec fn char_stage(filters: Seq<CharacterFilter>, text: Seq<char>) -> Seq<char>
    decreases filters.len(),
{
    if filters.len() == 0 {
        text
    } else {
        filters.last().spec_apply(char_stage(filters.drop_last(), text))
    }
}

/// The tokens after each token filter in turn.
pub open spec fn token_stage(filters: Seq<TokenFilter>, tokens: Seq<Seq<char>>) -> Seq<Seq<char>>
    decreases filters.len(),
{
    if filters.len() == 0 {
        tokens
    } else {
        filters.last().spec_apply_batch(token_stage(filters.drop_last(), tokens))
    }
}

/// The spans of a text: the whole text when there is no pre-tokenizer.
pub open spec fn pre_stage(pre_tokenizer: Option<PreTokenizer>, text: Seq<char>) -> Seq<Seq<char>> {
    match pre_tokenizer {
        None => seq![text],
        Some(p) => p.spec_pre_tokenize(text),
    }
}

/// Whether a pre-tokenizer and token filters can be built against the
/// published sets.
pub open spec fn stages_ok(
    pre_tokenizer: Option<PreTokenizerConfig>,
    token_filters: Seq<TokenFilterConfig>,
    stopwords: Map<Seq<char>, std::sync::Arc<StopwordsTokenFilter>>,
    synonyms: Map<Seq<char>, std::sync::Arc<SynonymTokenFilter>>,
) -> bool {
    &&& (pre_tokenizer matches Some(p) ==> pre_tokenizer_config_ok(p))
    &&& forall|i: int|
        0 <= i < token_filters.len() ==> token_filter_config_ok(
            #[trigger] token_filters[i],
            stopwords,
            synonyms,
        )
}

/// Whether a configuration can be built against the published sets.
pub open spec fn text_analyzer_config_ok(
    config: TextAnalyzerConfig,
    stopwords: Map<Seq<char>, std::sync::Arc<StopwordsTokenFilter>>,
    synonyms: Map<Seq<char>, std::sync::Arc<SynonymTokenFilter>>,
) -> bool {
    stages_ok(config.pre_tokenizer, config.token_filters@, stopwords, synonyms)
}

proof fn lemma_built_ok(
    config: TokenFilterConfig,
    stopwords: Map<Seq<char>, std::sync::Arc<StopwordsTokenFilter>>,
    synonyms: Map<Seq<char>, std::sync::Arc<SynonymTokenFilter>>,
    r: Result<TokenFilter, TokenFilterError>,
)
    requires
        token_filter_built(config, stopwords, synonyms, r),
    ensures
        r is Ok <==> token_filter_config_ok(config, stopwords, synonyms),
{
}

/// The analyzer is the one these stage configurations give against the
/// published sets.
pub open spec fn built_from(
    a: TextAnalyzer,
    character_filters: Seq<CharacterFilterConfig>,
    pre_tokenizer: Option<PreTokenizerConfig>,
    token_filters: Seq<TokenFilterConfig>,
    stopwords: Map<Seq<char>, std::sync::Arc<StopwordsTokenFilter>>,
    synonyms: Map<Seq<char>, std::sync::Arc<SynonymTokenFilter>>,
) -> bool {
    &&& a.character_filters@.len() == character_filters.len()
    &&& forall|i: int|
        0 <= i < a.character_filters@.len() ==> #[trigger] a.character_filters@[i]
            == character_filter_of(character_filters[i])
    &&& match pre_tokenizer {
        None => a.pre_tokenizer is None,
        Some(c) => a.pre_tokenizer matches Some(p) && pre_tokenizer_of(c, p),
    }
    &&& a.token_filters@.len() == token_filters.len()
    &&& forall|i: int|
        0 <= i < a.token_filters@.len() ==> token_filter_built(
            token_filters[i],
            stopwords,
            synonyms,
            Ok(#[trigger] a.token_filters@[i]),
        )
}

impl TextAnalyzer {
    /// The tokens of a text: the character filters in turn, the spans, then
    /// the token filters in turn.
    pub open spec fn spec_analyze(self, text: Seq<char>) -> Seq<Seq<char>> {
        token_stage(
            self.token_filters@,
            pre_stage(self.pre_tokenizer, char_stage(self.character_filters@, text)),
        )
    }

    /// Builds each stage of a configuration; named stopword and synonym sets
    /// come from the registries.
    pub fn build(
        config: TextAnalyzerConfig,
        stopwords: &ObjectPool<StopwordsTokenFilter>,
        synonyms: &ObjectPool<SynonymTokenFilter>,
    ) -> (r: Result<Self, TextAnalyzerError>)
        requires
            stopwords.well_formed(),
            synonyms.well_formed(),
        ensures
            r is Ok <==> text_analyzer_config_ok(config, stopwords.view(), synonyms.view()),
            r matches Ok(a) ==> built_from(
                a,
                config.character_filters@,
                config.pre_tokenizer,
                config.token_filters@,
                stopwords.view(),
                synonyms.view(),
            ),
            r matches Err(TextAnalyzerError::InvalidPattern(_)) ==> !(config.pre_tokenizer matches Some(p)
                ==> pre_tokenizer_config_ok(p)),
            r matches Err(TextAnalyzerError::TokenFilter(e)) ==> exists|i: int|
                0 <= i < config.token_filters@.len() && token_filter_built(
                    #[trigger] config.token_filters@[i],
                    stopwords.view(),
                    synonyms.view(),
                    Err(e),
                ),
    {
        Self::build_stages(
            config.character_filters,
            config.pre_tokenizer,
            config.token_filters,
            stopwords,
            synonyms,
        )
    }

    fn build_stages(
        character_filter_configs: Vec<CharacterFilterConfig>,
        pre_tokenizer_config: Option<PreTokenizerConfig>,
        token_filter_configs: Vec<TokenFilterConfig>,
        stopwords: &ObjectPool<StopwordsTokenFilter>,
        synonyms: &ObjectPool<SynonymTokenFilter>,
    ) -> (r: Result<Self, TextAnalyzerError>)
        requires
            stopwords.well_formed(),
            synonyms.well_formed(),
        ensures
            r is Ok <==> stages_ok(
                pre_tokenizer_config,
                token_filter_configs@,
                stopwords.view(),
                synonyms.view(),
            ),
            r matches Ok(a) ==> built_from(
                a,
                character_filter_configs@,
                pre_tokenizer_config,
                token_filter_configs@,
                stopwords.view(),
                synonyms.view(),
            ),
            r matches Err(TextAnalyzerError::InvalidPattern(_)) ==> !(pre_tokenizer_config matches Some(p)
                ==> pre_tokenizer_config_ok(p)),
            r matches Err(TextAnalyzerError::TokenFilter(e)) ==> exists|i: int|
                0 <= i < token_filter_configs@.len() && token_filter_built(
                    #[trigger] token_filter_configs@[i],
                    stopwords.view(),
                    synonyms.view(),
                    Err(e),
                ),
    {
        let mut character_filters: Vec<CharacterFilter> = Vec::new();
        let mut i: usize = 0;
        while i < character_filter_configs.len()
            invariant
                i <= character_filter_configs@.len(),
                character_filters@.len() == i,
                forall|j: int|
                    0 <= j < i ==> #[trigger] character_filters@[j] == character_filter_of(
                        character_filter_configs@[j],
                    ),
            decreases character_filter_configs@.len() - i,
        {
            character_filters.push(get_character_filter(character_filter_configs[i]));
            i = i + 1;
        }
        let pre_tokenizer = match pre_tokenizer_config {
            Some(p) => match get_pre_tokenizer(p) {
                Ok(p) => Some(p),
                Err(e) => {
                    return Err(TextAnalyzerError::InvalidPattern(e));
                },
            },
            None => None,
        };
        let mut configs = token_filter_configs;
        let ghost all = configs@;
        let n = configs.len();
        let mut token_filters: Vec<TokenFilter> = Vec::new();
        let mut k: usize = 0;
        while k < n
            invariant
                k <= n,
                n == all.len(),
                all == token_filter_configs@,
                configs@ == all.subrange(k as int, n as int),
                token_filters@.len() == k,
                stopwords.well_formed(),
                synonyms.well_formed(),
                forall|j: int|
                    0 <= j < k ==> token_filter_built(
                        all[j],
                        stopwords.view(),
                        synonyms.view(),
                        Ok(#[trigger] token_filters@[j]),
                    ),
                forall|j: int|
                    0 <= j < k ==> token_filter_config_ok(
                        #[trigger] all[j],
                        stopwords.view(),
                        synonyms.view(),
                    ),
            decreases n - k,
        {
            let c = configs.remove(0);
            assert(c == all[k as int]);
            assert(configs@ =~= all.subrange(k as int + 1, n as int));
            let built = get_token_filter(c, stopwords, synonyms);
            proof {
                lemma_built_ok(all[k as int], stopwords.view(), synonyms.view(), built);
            }
            match built {
                Ok(f) => {
                    token_filters.push(f);
                },
                Err(e) => {
                    proof {
                        assert(token_filter_built(
                            token_filter_configs@[k as int],
                            stopwords.view(),
                            synonyms.view(),
                            Err(e),
                        ));
                        assert(!token_filter_config_ok(
                            token_filter_configs@[k as int],
                            stopwords.view(),
                            synonyms.view(),
                        ));
                    }
                    return Err(TextAnalyzerError::TokenFilter(e));
                },
            }
            k = k + 1;
        }
        Ok(TextAnalyzer { character_filters, pre_tokenizer, token_filters })
    }

    /// Runs the stages on a text.
    pub fn apply(&self, text: &str) -> (r: Vec<String>)
        ensures
            views(r@) == self.spec_analyze(text@),
    {
        let mut current: Cow<str> = Cow::Borrowed(text);
        let mut i: usize = 0;
        while i < self.character_filters.len()
            invariant
                i <= self.character_filters@.len(),
                current@ == char_stage(self.character_filters@.subrange(0, i as int), text@),
            decreases self.character_filters@.len() - i,
        {
            assert(self.character_filters@.subrange(0, i as int + 1).drop_last()
                =~= self.character_filters@.subrange(0, i as int));
            let replaced: Option<String> = match self.character_filters[i].apply(cow_str(&current)) {
                Cow::Borrowed(_) => None,
                Cow::Owned(s) => Some(s),
            };
            if let Some(s) = replaced {
                current = Cow::Owned(s);
            }
            i = i + 1;
        }
        assert(self.character_filters@.subrange(0, i as int) =~= self.character_filters@);
        let ghost filtered = current@;
        let spans = match &self.pre_tokenizer {
            Some(p) => p.pre_tokenize(cow_str(&current)),
            None => {
                let whole = cow_str(&current).to_owned();
                let v = vec![whole];
                assert(views(v@) =~= seq![filtered]);
                v
            },
        };
        let ghost first = views(spans@);
        let mut tokens = spans;
        let mut k: usize = 0;
        assert(self.token_filters@.subrange(0, 0) =~= Seq::<TokenFilter>::empty());
        while k < self.token_filters.len()
            invariant
                k <= self.token_filters@.len(),
                views(tokens@) == token_stage(self.token_filters@.subrange(0, k as int), first),
            decreases self.token_filters@.len() - k,
        {
            assert(self.token_filters@.subrange(0, k as int + 1).drop_last()
                =~= self.token_filters@.subrange(0, k as int));
            tokens = self.token_filters[k].apply_batch(tokens);
            k = k + 1;
        }
        assert(self.token_filters@.subrange(0, k as int) =~= self.token_filters@);
        tokens
    }
}

/// One analyzer gives the same tokens for the same text on every call.
pub proof fn lemma_deterministic(
    analyzer: TextAnalyzer,
    text: Seq<char>,
    first: Seq<Seq<char>>,
    second: Seq<Seq<char>>,
)
    requires
        first == analyzer.spec_analyze(text),
        second == analyzer.spec_analyze(text),
    ensures
        first == second,
{
}

/// Two filters built from one configuration against the same published sets
/// emit the same tokens.
proof fn lemma_same_filter(
    config: TokenFilterConfig,
    stopwords: Map<Seq<char>, std::sync::Arc<StopwordsTokenFilter>>,
    synonyms: Map<Seq<char>, std::sync::Arc<SynonymTokenFilter>>,
    f1: TokenFilter,
    f2: TokenFilter,
    token: Seq<char>,
)
    requires
        token_filter_built(config, stopwords, synonyms, Ok(f1)),
        token_filter_built(config, stopwords, synonyms, Ok(f2)),
    ensures
        f1.spec_apply(token) == f2.spec_apply(token),
{
}

proof fn lemma_same_batch(f1: TokenFilter, f2: TokenFilter, tokens: Seq<Seq<char>>)
    requires
        forall|t: Seq<char>| f1.spec_apply(t) == f2.spec_apply(t),
    ensures
        f1.spec_apply_batch(tokens) == f2.spec_apply_batch(tokens),
    decreases tokens.len(),
{
    if tokens.len() > 0 {
        lemma_same_batch(f1, f2, tokens.drop_last());
    }
}

proof fn lemma_same_token_stage(
    configs: Seq<TokenFilterConfig>,
    stopwords: Map<Seq<char>, std::sync::Arc<StopwordsTokenFilter>>,
    synonyms: Map<Seq<char>, std::sync::Arc<SynonymTokenFilter>>,
    filters1: Seq<TokenFilter>,
    filters2: Seq<TokenFilter>,
    tokens: Seq<Seq<char>>,
)
    requires
        filters1.len() == configs.len(),
        filters2.len() == configs.len(),
        forall|i: int|
            0 <= i < configs.len() ==> token_filter_built(
                configs[i],
                stopwords,
                synonyms,
                Ok(#[trigger] filters1[i]),
            ),
        forall|i: int|
            0 <= i < configs.len() ==> token_filter_built(
                configs[i],
                stopwords,
                synonyms,
                Ok(#[trigger] filters2[i]),
            ),
    ensures
        token_stage(filters1, tokens) == token_stage(filters2, tokens),
    decreases configs.len(),
{
    if configs.len() > 0 {
        let n = configs.len() - 1;
        lemma_same_token_stage(
            configs.drop_last(),
            stopwords,
            synonyms,
            filters1.drop_last(),
            filters2.drop_last(),
            tokens,
        );
        let f1 = filters1.last();
        let f2 = filters2.last();
        assert(token_filter_built(configs[n], stopwords, synonyms, Ok(filters1[n])));
        assert(token_filter_built(configs[n], stopwords, synonyms, Ok(filters2[n])));
        assert forall|t: Seq<char>| f1.spec_apply(t) == f2.spec_apply(t) by {
            lemma_same_filter(configs[n], stopwords, synonyms, f1, f2, t);
        }
        lemma_same_batch(f1, f2, token_stage(filters1.drop_last(), tokens));
    }
}

/// Two analyzers built from equal configurations against the same published
/// sets give the same tokens for every text.
pub proof fn lemma_same_config_same_tokens(
    config: TextAnalyzerConfig,
    stopwords: Map<Seq<char>, std::sync::Arc<StopwordsTokenFilter>>,
    synonyms: Map<Seq<char>, std::sync::Arc<SynonymTokenFilter>>,
    a1: TextAnalyzer,
    a2: TextAnalyzer,
    text: Seq<char>,
)
    requires
        built_from(
            a1,
            config.character_filters@,
            config.pre_tokenizer,
            config.token_filters@,
            stopwords,
            synonyms,
        ),
        built_from(
            a2,
            config.character_filters@,
            config.pre_tokenizer,
            config.token_filters@,
            stopwords,
            synonyms,
        ),
    ensures
        a1.spec_analyze(text) == a2.spec_analyze(text),
{
    assert(a1.character_filters@ =~= a2.character_filters@);
    let filtered = char_stage(a1.character_filters@, text);
    let spans = pre_stage(a1.pre_tokenizer, filtered);
    match config.pre_tokenizer {
        Some(c) => {
            let p1 = a1.pre_tokenizer->Some_0;
            let p2 = a2.pre_tokenizer->Some_0;
            crate::pre_tokenizer::lemma_same_config_same_spans(c, p1, p2, filtered);
        },
        None => {},
    }
    assert(pre_stage(a2.pre_tokenizer, filtered) == spans);
    lemma_same_token_stage(
        config.token_filters@,
        stopwords,
        synonyms,
        a1.token_filters@,
        a2.token_filters@,
        spans,
    );
}

} // verus!
