use vstd::prelude::*;

use crate::text::{decimal_string, spec_decimal};

verus! {

/// Failure of resolving a requested model name against the registry.
#[derive(Debug)]
pub enum ResolveError {
    /// The registry holds no entries at all; nothing can be resolved.
    EmptyCatalog,
    /// No entry matches the requested name; the most similar known name,
    /// when one exists, is carried as a suggestion.
    NoMatchingModel { requested: String, suggestion: Option<String> },
}

impl ResolveError {
    /// The human-readable message for this error.
    pub open spec fn spec_message(self) -> Seq<char> {
        match self {
            ResolveError::EmptyCatalog => "Error: no models in model file"@,
            ResolveError::NoMatchingModel { requested, suggestion } => match suggestion {
                Some(s) => "No model matching `"@ + requested@ + "`, did you mean `"@ + s@
                    + "`?"@,
                None => "No model matching `"@ + requested@ + "`."@,
            },
        }
    }

    /// Renders the human-readable message.
    pub fn message(&self) -> (r: String)
        ensures
            r@ == self.spec_message(),
    {
        match self {
            ResolveError::EmptyCatalog => {
                let r = "Error: no models in model file".to_owned();
                proof {
                    assert(r@ =~= self.spec_message());
                }
                r
            },
            ResolveError::NoMatchingModel { requested, suggestion } => {
                let mut r = "No model matching `".to_owned();
                r.append(requested.as_str());
                match suggestion {
                    Some(s) => {
                        r.append("`, did you mean `");
                        r.append(s.as_str());
                        r.append("`?");
                    },
                    None => {
                        r.append("`.");
                    },
                }
                proof {
                    assert(r@ =~= self.spec_message());
                }
                r
            },
        }
    }
}

/// What went wrong in a request to the model hub's API, as plain values:
/// the classification the error descriptions are built from.
#[derive(Debug)]
pub enum ApiFailure {
    /// The request could not be made or answered at the transport level
    /// (connectivity, DNS, timeout), with the target URL when known.
    Transport { url: Option<String> },
    /// The service answered with a failure status code.
    Status { code: u16, text: String },
    /// Any other failure of the hub API, already rendered to text.
    Other { description: String },
}

/// The advice shown for an API failure: what the operator should check.
pub open spec fn api_advice(f: ApiFailure) -> Seq<char> {
    match f {
        ApiFailure::Transport { .. } => "Check your Internet connection."@,
        ApiFailure::Status { .. } => "Check your configuration."@,
        ApiFailure::Other { .. } => "Check Hugging Face configuration"@,
    }
}

/// The detail line shown for an API failure.
pub open spec fn api_detail(f: ApiFailure) -> Seq<char> {
    match f {
        ApiFailure::Transport { url } => match url {
            Some(u) => "Error connecting to API URL `"@ + u@ + "`"@,
            None => "Api request error"@,
        },
        ApiFailure::Status { code, text } => "Api request error "@ + text@
            + ", status code: "@ + spec_decimal(code as int),
        ApiFailure::Other { description } => description@,
    }
}

/// Failure to acquire the tokenizer artifact from the model hub, with
/// advice for the operator and a detail line naming the cause.
#[derive(Debug)]
pub struct HfApiError {
    pub advice: String,
    pub detail: String,
}

/// Builds the error description for a classified API failure.
pub fn describe_api_failure(f: ApiFailure) -> (r: HfApiError)
    ensures
        r.advice@ == api_advice(f),
        r.detail@ == api_detail(f),
{
    let ghost orig = f;
    match f {
        ApiFailure::Transport { url } => {
            let detail = match url {
                Some(u) => {
                    let mut d = "Error connecting to API URL `".to_owned();
                    d.append(u.as_str());
                    d.append("`");
                    d
                },
                None => "Api request error".to_owned(),
            };
            let r = HfApiError { advice: "Check your Internet connection.".to_owned(), detail };
            proof {
                assert(r.detail@ =~= api_detail(orig));
            }
            r
        },
        ApiFailure::Status { code, text } => {
            let mut d = "Api request error ".to_owned();
            d.append(text.as_str());
            d.append(", status code: ");
            let num = decimal_string(code as u64);
            d.append(num.as_str());
            let r = HfApiError { advice: "Check your configuration.".to_owned(), detail: d };
            proof {
                assert(r.detail@ =~= api_detail(orig));
            }
            r
        },
        ApiFailure::Other { description } => {
            HfApiError {
                advice: "Check Hugging Face configuration".to_owned(),
                detail: description,
            }
        },
    }
}

#[verifier::external_type_specification]
#[verifier::external_body]
pub struct ExApiError(hf_hub::api::sync::ApiError);

/// Relies on hf_hub::api::sync::ApiError and ureq::Error: tells their
/// variants apart, one arm each, moving the fields out: a transport
/// failure keeps the request's URL when one is known, a status failure
/// its code and status text, and anything else its rendered form.
#[verifier::external_body]
fn classify_api_error(value: hf_hub::api::sync::ApiError) -> (r: ApiFailure) {
    match value {
        hf_hub::api::sync::ApiError::RequestError(ref err) => match &**err {
            ureq::Error::Transport(transport) => ApiFailure::Transport {
                url: transport.url().map(|u| u.to_string()),
            },
            ureq::Error::Status(code, response) => ApiFailure::Status {
                code: *code,
                text: response.status_text().to_owned(),
            },
        },
        _ => ApiFailure::Other { description: format!("{value:?}") },
    }
}

/// Maps a hub API error to this library's description of it: the advice
/// and detail belonging to the failure's classification.
pub fn hf_api_error_from(value: hf_hub::api::sync::ApiError) -> (r: HfApiError)
    ensures
        exists|f: ApiFailure|
            r.advice@ == api_advice(f) && #[trigger] api_detail(f) == r.detail@,
{
    let f = classify_api_error(value);
    let ghost gf = f;
    let r = describe_api_failure(f);
    proof {
        assert(r.advice@ == api_advice(gf) && api_detail(gf) == r.detail@);
    }
    r
}

/// Failure to load a tokenizer from its serialized definition, with
/// advice for the operator and a detail line naming the cause.
#[derive(Debug)]
pub struct TokenizerError {
    pub advice: String,
    pub detail: String,
}

impl TokenizerError {
    /// Builds the error for a tokenizer definition that could not be
    /// parsed or initialized, from the rendered cause.
    pub fn from_description(description: &str) -> (r: TokenizerError)
        ensures
            r.advice@ == "Tokenizer file might be corrupted. Try re-running the last operation"@,
            r.detail@ == "Tokenizer error: "@ + description@,
    {
        let mut d = "Tokenizer error: ".to_owned();
        d.append(description);
        TokenizerError {
            advice: "Tokenizer file might be corrupted. Try re-running the last operation"
                .to_owned(),
            detail: d,
        }
    }
}

/// Failure to encode a prompt with an already-loaded tokenizer.  Only
/// this specific encode attempt failed; nothing more may be inferred.
#[derive(Debug)]
pub struct EncodingError {
    pub detail: String,
}

impl EncodingError {
    /// Builds the error for a failed encode attempt.
    pub fn new() -> (r: EncodingError)
        ensures
            r.detail@ == "Encoding prompt"@,
    {
        EncodingError { detail: "Encoding prompt".to_owned() }
    }
}

/// A failure of the tokenizer-acquisition pipeline.
#[derive(Debug)]
pub enum AppError {
    HfApi(HfApiError),
    Tokenizer(TokenizerError),
}

impl AppError {
    /// The advice attached to the failure.
    pub fn advice(&self) -> (r: &String)
        ensures
            match self {
                AppError::HfApi(e) => r@ == e.advice@,
                AppError::Tokenizer(e) => r@ == e.advice@,
            },
    {
        match self {
            AppError::HfApi(e) => &e.advice,
            AppError::Tokenizer(e) => &e.advice,
        }
    }

    /// The detail line attached to the failure.
    pub fn detail(&self) -> (r: &String)
        ensures
            match self {
                AppError::HfApi(e) => r@ == e.detail@,
                AppError::Tokenizer(e) => r@ == e.detail@,
            },
    {
        match self {
            AppError::HfApi(e) => &e.detail,
            AppError::Tokenizer(e) => &e.detail,
        }
    }
}

/// Failure of selecting and validating the prompt text.
#[derive(Debug)]
pub enum PromptError {
    /// Neither a prompt file's content nor an inline prompt was supplied.
    MissingSource,
    /// The prompt is empty or holds only whitespace.
    MissingValue,
    /// The prompt exceeds the size cap, which its byte count breaks.
    TooLarge { size: usize },
}

impl PromptError {
    /// The human-readable message for this error.
    pub open spec fn spec_message(self) -> Seq<char> {
        match self {
            PromptError::MissingSource => "Supply a file containing the prompt text or the prompt as a string"@,
            PromptError::MissingValue => "Missing a prompt value"@,
            PromptError::TooLarge { size } => "Prompt context is too large: "@ + spec_decimal(
                size as int,
            ) + "!"@,
        }
    }

    /// Renders the human-readable message.
    pub fn message(&self) -> (r: String)
        ensures
            r@ == self.spec_message(),
    {
        match self {
            PromptError::MissingSource => {
                "Supply a file containing the prompt text or the prompt as a string".to_owned()
            },
            PromptError::MissingValue => "Missing a prompt value".to_owned(),
            PromptError::TooLarge { size } => {
                let mut r = "Prompt context is too large: ".to_owned();
                let num = decimal_string(*size as u64);
                r.append(num.as_str());
                r.append("!");
                proof {
                    assert(r@ =~= self.spec_message());
                }
                r
            },
        }
    }
}

} // verus!
