use vstd::prelude::*;

use crate::errors::{EncodingError, TokenizerError};
use tokenizers::PostProcessor;

verus! {

#[verifier::external_type_specification]
#[verifier::external_body]
pub struct ExTokenizer(tokenizers::Tokenizer);

/// A loaded tokenizer, bound to the bytes of the serialized definition
/// it was created from.  Only `create_tokeniser` produces one, so every
/// handle's tokenizer passed the load-time checks.
pub struct TokenizerHandle {
    tok: tokenizers::Tokenizer,
    definition: Ghost<Seq<u8>>,
}

impl TokenizerHandle {
    /// The bytes of the serialized definition this handle was loaded from.
    pub closed spec fn spec_definition(self) -> Seq<u8> {
        self.definition@
    }
}

/// Whether these bytes hold a tokenizer definition that loading accepts:
/// one that parses as a serialized tokenizer, keeps its truncation bound
/// (when truncation and a post-processor are both set) at or above the
/// post-processor's added-token count, and encodes deterministically (a
/// BPE model with merge dropout is refused).  A function of the bytes
/// alone.
pub uninterp spec fn loadable_definition(data: Seq<u8>) -> bool;

/// What encoding a prompt with the tokenizer of an accepted definition
/// yields, special tokens included: `Some` of the token identifiers, or
/// `None` where the encode fails.  With randomized models refused at
/// load, this is a function of the definition bytes and the prompt
/// alone.
pub uninterp spec fn encode_result_of(definition: Seq<u8>, prompt: Seq<char>) -> Option<Seq<u32>>;

/// Relies on tokenizers::Tokenizer::from_bytes: parses a serialized
/// tokenizer definition into a ready tokenizer, a function of the bytes
/// alone; a failure is rendered to its textual form.  Two kinds of
/// parsed definition are rejected here besides: one whose truncation
/// bound lies below its post-processor's added-token count, since
/// encoding subtracts the two on usize (relies on
/// TokenizerImpl::get_truncation and get_post_processor, and on
/// PostProcessor::added_tokens); and a BPE model with merge dropout,
/// which draws random numbers while encoding (relies on
/// TokenizerImpl::get_model).
#[verifier::external_body]
fn tokenizer_from_bytes(data: &[u8]) -> (r: Result<tokenizers::Tokenizer, String>)
    ensures
        r is Ok <==> loadable_definition(data@),
{
    let tokeniser = match tokenizers::Tokenizer::from_bytes(data) {
        Ok(t) => t,
        Err(e) => return Err(format!("{e:?}")),
    };
    if let (Some(t), Some(p)) = (tokeniser.get_truncation(), tokeniser.get_post_processor()) {
        if t.max_length < p.added_tokens(false) || t.max_length < p.added_tokens(true) {
            return Err("truncation max_length is below the post-processor's added token count".to_owned());
        }
    }
    if let tokenizers::models::ModelWrapper::BPE(b) = tokeniser.get_model() {
        if b.dropout.is_some() { return Err("BPE merge dropout makes encoding nondeterministic".to_owned()); }
    }
    Ok(tokeniser)
}

/// Relies on tokenizers::Tokenizer::encode_fast, with special tokens
/// added: on the tokenizer of an accepted definition the outcome is the
/// named function of the definition bytes and the prompt; a failure is
/// rendered to its textual form.
#[verifier::external_body]
fn encode_token_ids(tokeniser: &TokenizerHandle, prompt: &str) -> (r: Result<Vec<u32>, String>)
    ensures
        r is Ok <==> encode_result_of(tokeniser.spec_definition(), prompt@) is Some,
        r matches Ok(ids) ==> encode_result_of(tokeniser.spec_definition(), prompt@) == Some(
            ids@,
        ),
{
    let add_special_tokens = true;
    match tokeniser.tok.encode_fast(prompt, add_special_tokens) {
        Ok(encoding) => Ok(encoding.get_ids().to_vec()),
        Err(e) => Err(format!("{e:?}")),
    }
}

/// Creates a tokenizer from the bytes of its serialized definition (the
/// tokenizer file acquired for a canonical repository identifier).
///
/// Succeeds exactly on bytes holding a definition that loading accepts,
/// and the handle stays bound to those bytes; anything else fails with a
/// load error carrying the fixed advice and a detail naming the cause.
/// Acceptance is deliberately narrower than parsing alone: a truncation
/// bound below the post-processor's added-token count, or a BPE model
/// with merge dropout, is refused so that encoding can neither fail on
/// an unsigned subtraction nor draw random numbers.
pub fn create_tokeniser(data: &[u8]) -> (r: Result<TokenizerHandle, TokenizerError>)
    ensures
        r is Ok <==> loadable_definition(data@),
        r matches Ok(h) ==> h.spec_definition() == data@,
        r matches Err(e) ==> {
            &&& e.advice@
                == "Tokenizer file might be corrupted. Try re-running the last operation"@
            &&& exists|cause: Seq<char>| e.detail@ == "Tokenizer error: "@ + cause
        },
{
    match tokenizer_from_bytes(data) {
        Ok(t) => Ok(TokenizerHandle { tok: t, definition: Ghost(data@) }),
        Err(cause) => {
            let e = TokenizerError::from_description(cause.as_str());
            proof {
                assert(e.detail@ == "Tokenizer error: "@ + cause@);
            }
            Err(e)
        },
    }
}

/// Counts the tokens `prompt` encodes to with the handle's tokenizer,
/// under its default policy with special tokens included: exactly the
/// length of the encoded identifier sequence, 0 for an empty encoding.
/// No input length is checked here; failure comes only from the encode
/// attempt itself.  The handle is not mutated; a failure speaks only for
/// this attempt.
pub fn count_tokens(tokeniser: &TokenizerHandle, prompt: &str) -> (r: Result<
    usize,
    EncodingError,
>)
    ensures
        r is Ok <==> encode_result_of(tokeniser.spec_definition(), prompt@) is Some,
        r matches Ok(n) ==> match encode_result_of(tokeniser.spec_definition(), prompt@) {
            Some(ids) => n == ids.len(),
            None => false,
        },
        r matches Err(e) ==> e.detail@ == "Encoding prompt"@,
{
    match encode_token_ids(tokeniser, prompt) {
        Ok(ids) => Ok(ids.len()),
        Err(_) => Err(EncodingError::new()),
    }
}

} // verus!
