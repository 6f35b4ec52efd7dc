//! Character filters: whole-text rewriting before segmentation.

pub mod to_lowercase;
pub mod unicode_normalization;

use std::borrow::Cow;

use vstd::prelude::*;

use to_lowercase::{lower_of, ToLowercase};
use unicode_normalization::{
    nfc_of, nfd_of, nfkc_of, nfkd_of, UnicodeNormalizationConfig, NFC, NFD, NFKC, NFKD,
};

verus! {

/// A character filter, one variant per kind.
#[derive(Clone, Copy, Debug)]
pub enum CharacterFilter {
    ToLowercase(ToLowercase),
    Nfc(NFC),
    Nfd(NFD),
    Nfkc(NFKC),
    Nfkd(NFKD),
}

/// The configuration of one character filter.
#[derive(Clone, Copy, Debug, PartialEq, Eq)]
pub enum CharacterFilterConfig {
    ToLowercase,
    UnicodeNormalization(UnicodeNormalizationConfig),
}

impl CharacterFilter {
    /// The text after the filter.
    pub open spec fn spec_apply(self, text: Seq<char>) -> Seq<char> {
        match self {
            CharacterFilter::ToLowercase(_) => lower_of(text),
            CharacterFilter::Nfc(_) => nfc_of(text),
            CharacterFilter::Nfd(_) => nfd_of(text),
            CharacterFilter::Nfkc(_) => nfkc_of(text),
            CharacterFilter::Nfkd(_) => nfkd_of(text),
        }
    }

    /// Rewrites the text; returns the input itself, borrowed, when the filter
    /// leaves it unchanged.
    pub fn apply<'a>(&self, text: &'a str) -> (r: Cow<'a, str>)
        ensures
            r@ == self.spec_apply(text@),
            r is Borrowed <==> self.spec_apply(text@) == text@,
    {
        match self {
            CharacterFilter::ToLowercase(f) => f.apply(text),
            CharacterFilter::Nfc(f) => f.apply(text),
            CharacterFilter::Nfd(f) => f.apply(text),
            CharacterFilter::Nfkc(f) => f.apply(text),
            CharacterFilter::Nfkd(f) => f.apply(text),
        }
    }
}

/// The normalization filter of a form.
pub open spec fn normalization_filter(config: UnicodeNormalizationConfig) -> CharacterFilter {
    match config {
        UnicodeNormalizationConfig::NFC => CharacterFilter::Nfc(NFC),
        UnicodeNormalizationConfig::NFD => CharacterFilter::Nfd(NFD),
        UnicodeNormalizationConfig::NFKC => CharacterFilter::Nfkc(NFKC),
        UnicodeNormalizationConfig::NFKD => CharacterFilter::Nfkd(NFKD),
    }
}

/// The filter a configuration names.
pub open spec fn character_filter_of(config: CharacterFilterConfig) -> CharacterFilter {
    match config {
        CharacterFilterConfig::ToLowercase => CharacterFilter::ToLowercase(ToLowercase),
        CharacterFilterConfig::UnicodeNormalization(form) => normalization_filter(form),
    }
}

/// Builds the normalization filter of a form.
pub fn get_unicode_normalization(config: UnicodeNormalizationConfig) -> (r: CharacterFilter)
    ensures
        r == normalization_filter(config),
{
    match config {
        UnicodeNormalizationConfig::NFC => CharacterFilter::Nfc(NFC),
        UnicodeNormalizationConfig::NFD => CharacterFilter::Nfd(NFD),
        UnicodeNormalizationConfig::NFKC => CharacterFilter::Nfkc(NFKC),
        UnicodeNormalizationConfig::NFKD => CharacterFilter::Nfkd(NFKD),
    }
}

/// Builds the filter a configuration names.
pub fn get_character_filter(config: CharacterFilterConfig) -> (r: CharacterFilter)
    ensures
        r == character_filter_of(config),
{
    match config {
        CharacterFilterConfig::ToLowercase => CharacterFilter::ToLowercase(ToLowercase),
        CharacterFilterConfig::UnicodeNormalization(form) => get_unicode_normalization(form),
    }
}

} // verus!
