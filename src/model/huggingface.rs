//! Models of the `tokenizers` crate, loaded from their JSON description.

use vstd::prelude::*;

verus! {

#[verifier::external_type_specification]
#[verifier::external_body]
#[verifier::reject_recursive_types(M)]
#[verifier::reject_recursive_types(N)]
#[verifier::reject_recursive_types(PT)]
#[verifier::reject_recursive_types(PP)]
#[verifier::reject_recursive_types(D)]
pub struct ExTokenizerImpl<M, N, PT, PP, D>(tokenizers::TokenizerImpl<M, N, PT, PP, D>);

#[verifier::external_type_specification]
#[verifier::external_body]
pub struct ExModelWrapper(tokenizers::ModelWrapper);

#[verifier::external_type_specification]
#[verifier::external_body]
pub struct ExNormalizerWrapper(tokenizers::NormalizerWrapper);

#[verifier::external_type_specification]
#[verifier::external_body]
pub struct ExPreTokenizerWrapper(tokenizers::PreTokenizerWrapper);

#[verifier::external_type_specification]
#[verifier::external_body]
pub struct ExPostProcessorWrapper(tokenizers::PostProcessorWrapper);

#[verifier::external_type_specification]
#[verifier::external_body]
pub struct ExDecoderWrapper(tokenizers::DecoderWrapper);

/// A pipeline of the `tokenizers` crate as its JSON description builds it.
pub type HfPipeline = tokenizers::TokenizerImpl<
    tokenizers::ModelWrapper,
    tokenizers::NormalizerWrapper,
    tokenizers::PreTokenizerWrapper,
    tokenizers::PostProcessorWrapper,
    tokenizers::DecoderWrapper,
>;

/// Whether `tokenizers` accepts a JSON description of a pipeline.
pub uninterp spec fn hf_description_loads(config: Seq<char>) -> bool;

/// Relies on `tokenizers::Tokenizer::from_bytes`: parses a pipeline from its
/// JSON description, or gives the reason it was refused.
#[verifier::external_body]
fn load(config: &str) -> (r: Result<HfPipeline, String>)
    ensures
        r is Ok <==> hf_description_loads(config@),
{
    match tokenizers::Tokenizer::from_bytes(config.as_bytes()) {
        Ok(t) => Ok(t.into_inner()),
        Err(e) => Err(e.to_string()),
    }
}

/// Relies on `tokenizers::TokenizerImpl::encode_fast` without special tokens: the
/// ids of the token, or the reason encoding failed.
#[verifier::external_body]
fn encode(tokenizer: &HfPipeline, token: &str) -> (r: Result<Vec<u32>, String>) {
    match tokenizer.encode_fast(token, false) {
        Ok(encoding) => Ok(encoding.get_ids().to_vec()),
        Err(e) => Err(e.to_string()),
    }
}

/// A trained subword or word-level model.
pub struct HuggingFaceModel {
    tokenizer: HfPipeline,
}

impl HuggingFaceModel {
    /// Loads the model from its JSON description.
    pub fn new(config: &str) -> (r: Result<Self, String>)
        ensures
            r is Ok <==> hf_description_loads(config@),
    {
        match load(config) {
            Ok(tokenizer) => Ok(HuggingFaceModel { tokenizer }),
            Err(e) => Err(e),
        }
    }

    /// The ids of one token.
    pub fn apply(&self, token: &str) -> (r: Result<Vec<u32>, String>) {
        encode(&self.tokenizer, token)
    }
}

} // verus!
