//! Models: map a token to term ids. Also the rules for model names.

pub mod huggingface;

use vstd::prelude::*;

use crate::text::chars_of;
use huggingface::{hf_description_loads, HuggingFaceModel};

verus! {

/// The names of the built-in models; a new model may not take one.
pub open spec fn builtin_names() -> Set<Seq<char>> {
    set!["bert_base_uncased"@, "wiki_tocken"@, "gemma2b"@, "llmlingua2"@]
}

pub open spec fn is_ascii_alphanumeric(c: char) -> bool {
    ('a' <= c <= 'z') || ('A' <= c <= 'Z') || ('0' <= c <= '9')
}

pub open spec fn is_ascii_alphabetic(c: char) -> bool {
    ('a' <= c <= 'z') || ('A' <= c <= 'Z')
}

/// A name of ASCII letters, digits and underscores, 1 to 20 long, starting
/// with a letter.
pub open spec fn valid_model_name(name: Seq<char>) -> bool {
    &&& forall|i: int|
        0 <= i < name.len() ==> is_ascii_alphanumeric(#[trigger] name[i]) || name[i] == '_'
    &&& 1 <= name.len() <= 20
    &&& is_ascii_alphabetic(name[0])
}

/// Why a model name was refused.
#[derive(Clone, Debug, PartialEq, Eq)]
pub enum ModelNameError {
    /// This character is not an ASCII letter, digit or underscore.
    InvalidCharacter(char),
    /// The name is empty or longer than 20 characters.
    InvalidLength,
    /// The name does not start with a letter.
    NotStartingWithLetter,
    /// The name belongs to a built-in model.
    Reserved,
}

/// Checks a model name: first its characters, then its length, then its
/// first character.
pub fn validate_model_name(name: &str) -> (r: Result<(), ModelNameError>)
    ensures
        r is Ok <==> valid_model_name(name@),
        r matches Err(ModelNameError::InvalidCharacter(c)) ==> name@.contains(c) && !(
        is_ascii_alphanumeric(c) || c == '_'),
        (r matches Err(ModelNameError::InvalidCharacter(_))) <==> exists|i: int|
            0 <= i < name@.len() && !(is_ascii_alphanumeric(#[trigger] name@[i]) || name@[i]
                == '_'),
        r == Err::<(), _>(ModelNameError::InvalidLength) <==> (forall|i: int|
            0 <= i < name@.len() ==> is_ascii_alphanumeric(#[trigger] name@[i]) || name@[i] == '_')
            && !(1 <= name@.len() <= 20),
        r == Err::<(), _>(ModelNameError::NotStartingWithLetter) <==> (forall|i: int|
            0 <= i < name@.len() ==> is_ascii_alphanumeric(#[trigger] name@[i]) || name@[i] == '_')
            && 1 <= name@.len() <= 20 && !is_ascii_alphabetic(name@[0]),
        r != Err::<(), _>(ModelNameError::Reserved),
{
    let chars = chars_of(name);
    let mut i: usize = 0;
    while i < chars.len()
        invariant
            i <= chars@.len(),
            chars@ == name@,
            forall|j: int| 0 <= j < i ==> is_ascii_alphanumeric(#[trigger] chars@[j]) || chars@[j] == '_',
        decreases chars@.len() - i,
    {
        let c = chars[i];
        if !(('a' <= c && c <= 'z') || ('A' <= c && c <= 'Z') || ('0' <= c && c <= '9') || c == '_') {
            assert(name@[i as int] == c);
            return Err(ModelNameError::InvalidCharacter(c));
        }
        i = i + 1;
    }
    if chars.len() < 1 || chars.len() > 20 {
        return Err(ModelNameError::InvalidLength);
    }
    let first = chars[0];
    if !(('a' <= first && first <= 'z') || ('A' <= first && first <= 'Z')) {
        return Err(ModelNameError::NotStartingWithLetter);
    }
    Ok(())
}

/// Whether the name belongs to a built-in model.
pub fn is_builtin_model(name: &str) -> (r: bool)
    ensures
        r == builtin_names().contains(name@),
{
    let n = name.to_owned();
    let a = "bert_base_uncased".to_owned();
    let b = "wiki_tocken".to_owned();
    let c = "gemma2b".to_owned();
    let d = "llmlingua2".to_owned();
    n == a || n == b || n == c || n == d
}

/// Checks the name of a model about to be created: a valid name that no
/// built-in model has.
pub fn validate_new_model_name(name: &str) -> (r: Result<(), ModelNameError>)
    ensures
        r is Ok <==> valid_model_name(name@) && !builtin_names().contains(name@),
        r == Err::<(), _>(ModelNameError::Reserved) <==> valid_model_name(name@)
            && builtin_names().contains(name@),
{
    match validate_model_name(name) {
        Ok(()) => {
            if is_builtin_model(name) {
                Err(ModelNameError::Reserved)
            } else {
                Ok(())
            }
        },
        Err(e) => Err(e),
    }
}

/// A model, one variant per kind.
pub enum TokenizerModel {
    HuggingFace(HuggingFaceModel),
}

/// The stored configuration of a model.
#[derive(Clone, Debug, PartialEq, Eq)]
pub enum ModelConfig {
    /// The JSON description of a `tokenizers` pipeline.
    HuggingFace(String),
}

/// Builds the model a configuration describes, or gives the reason it was
/// refused.
pub fn build_model(config: &ModelConfig) -> (r: Result<TokenizerModel, String>)
    ensures
        r is Ok <==> hf_description_loads(config->HuggingFace_0@),
        r matches Ok(m) ==> (m is HuggingFace <==> config is HuggingFace),
{
    match config {
        ModelConfig::HuggingFace(description) => match HuggingFaceModel::new(description.as_str()) {
            Ok(m) => Ok(TokenizerModel::HuggingFace(m)),
            Err(e) => Err(e),
        },
    }
}

impl TokenizerModel {
    /// The ids of one token, or the reason the model failed.
    pub fn apply(&self, token: &str) -> (r: Result<Vec<u32>, String>) {
        match self {
            TokenizerModel::HuggingFace(m) => m.apply(token),
        }
    }

    /// The ids of each token in turn, concatenated; stops at the first
    /// failure.
    pub fn apply_batch(&self, tokens: &Vec<String>) -> (r: Result<Vec<u32>, String>)
        ensures
            r matches Ok(ids) ==> exists|parts: Seq<Seq<u32>>|
                parts.len() == tokens@.len() && ids@ == concat_ids(parts),
            tokens@.len() == 0 ==> (r matches Ok(ids) && ids@.len() == 0),
    {
        let mut out: Vec<u32> = Vec::new();
        let ghost mut parts: Seq<Seq<u32>> = Seq::empty();
        let mut i: usize = 0;
        while i < tokens.len()
            invariant
                i <= tokens@.len(),
                parts.len() == i,
                out@ == concat_ids(parts),
            decreases tokens@.len() - i,
        {
            match self.apply(tokens[i].as_str()) {
                Ok(ids) => {
                    let mut ids = ids;
                    proof {
                        assert(parts.push(ids@).drop_last() =~= parts);
                        parts = parts.push(ids@);
                    }
                    out.append(&mut ids);
                },
                Err(e) => {
                    return Err(e);
                },
            }
            i = i + 1;
        }
        Ok(out)
    }
}

/// The id sequences one after another.
pub open spec fn concat_ids(parts: Seq<Seq<u32>>) -> Seq<u32>
    decreases parts.len(),
{
    if parts.len() == 0 {
        Seq::empty()
    } else {
        concat_ids(parts.drop_last()) + parts.last()
    }
}

} // verus!
