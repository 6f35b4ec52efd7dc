//! Unicode normalization of the whole text, in one of the four standard forms.

use std::borrow::Cow;

use vstd::prelude::*;

use crate::text::keep_or_replace;

use unicode_normalization::UnicodeNormalization;

verus! {

/// Canonical composition, as the `unicode-normalization` crate computes it.
pub uninterp spec fn nfc_of(text: Seq<char>) -> Seq<char>;

/// Canonical decomposition, as the `unicode-normalization` crate computes it.
pub uninterp spec fn nfd_of(text: Seq<char>) -> Seq<char>;

/// Compatibility composition, as the `unicode-normalization` crate computes it.
pub uninterp spec fn nfkc_of(text: Seq<char>) -> Seq<char>;

/// Compatibility decomposition, as the `unicode-normalization` crate computes
/// it.
pub uninterp spec fn nfkd_of(text: Seq<char>) -> Seq<char>;

/// Relies on `UnicodeNormalization::nfc`: the text in form NFC.
#[verifier::external_body]
fn to_nfc(text: &str) -> (r: String)
    ensures
        r@ == nfc_of(text@),
{
    text.nfc().collect::<String>()
}

/// Relies on `UnicodeNormalization::nfd`: the text in form NFD.
#[verifier::external_body]
fn to_nfd(text: &str) -> (r: String)
    ensures
        r@ == nfd_of(text@),
{
    text.nfd().collect::<String>()
}

/// Relies on `UnicodeNormalization::nfkc`: the text in form NFKC.
#[verifier::external_body]
fn to_nfkc(text: &str) -> (r: String)
    ensures
        r@ == nfkc_of(text@),
{
    text.nfkc().collect::<String>()
}

/// Relies on `UnicodeNormalization::nfkd`: the text in form NFKD.
#[verifier::external_body]
fn to_nfkd(text: &str) -> (r: String)
    ensures
        r@ == nfkd_of(text@),
{
    text.nfkd().collect::<String>()
}

/// The normalization form a configuration names.
#[derive(Clone, Copy, Debug, PartialEq, Eq)]
pub enum UnicodeNormalizationConfig {
    NFC,
    NFD,
    NFKC,
    NFKD,
}

#[derive(Clone, Copy, Debug)]
pub struct NFC;

#[derive(Clone, Copy, Debug)]
pub struct NFD;

#[derive(Clone, Copy, Debug)]
pub struct NFKC;

#[derive(Clone, Copy, Debug)]
pub struct NFKD;

impl NFC {
    /// The rewritten text; the input itself when nothing changes.
    pub fn apply<'a>(&self, text: &'a str) -> (r: Cow<'a, str>)
        ensures
            r@ == nfc_of(text@),
            r is Borrowed <==> nfc_of(text@) == text@,
    {
        keep_or_replace(text, to_nfc(text))
    }
}

impl NFD {
    /// The rewritten text; the input itself when nothing changes.
    pub fn apply<'a>(&self, text: &'a str) -> (r: Cow<'a, str>)
        ensures
            r@ == nfd_of(text@),
            r is Borrowed <==> nfd_of(text@) == text@,
    {
        keep_or_replace(text, to_nfd(text))
    }
}

impl NFKC {
    /// The rewritten text; the input itself when nothing changes.
    pub fn apply<'a>(&self, text: &'a str) -> (r: Cow<'a, str>)
        ensures
            r@ == nfkc_of(text@),
            r is Borrowed <==> nfkc_of(text@) == text@,
    {
        keep_or_replace(text, to_nfkc(text))
    }
}

impl NFKD {
    /// The rewritten text; the input itself when nothing changes.
    pub fn apply<'a>(&self, text: &'a str) -> (r: Cow<'a, str>)
        ensures
            r@ == nfkd_of(text@),
            r is Borrowed <==> nfkd_of(text@) == text@,
    {
        keep_or_replace(text, to_nfkd(text))
    }
}

} // verus!
