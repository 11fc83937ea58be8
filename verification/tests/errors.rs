use tokenator::errors::{
    describe_api_failure, hf_api_error_from, ApiFailure, EncodingError, PromptError,
    ResolveError, TokenizerError,
};

#[test]
fn transport_failure_advises_checking_the_connection() {
    let described = describe_api_failure(ApiFailure::Transport {
        url: Some("https://example.invalid/tokenizer.json".to_owned()),
    });

    assert_eq!(described.advice, "Check your Internet connection.");
    assert_eq!(
        described.detail,
        "Error connecting to API URL `https://example.invalid/tokenizer.json`"
    );
}

#[test]
fn transport_failure_without_a_url_keeps_a_generic_detail() {
    let described = describe_api_failure(ApiFailure::Transport { url: None });

    assert_eq!(described.advice, "Check your Internet connection.");
    assert_eq!(described.detail, "Api request error");
}

#[test]
fn status_failure_reports_code_and_text() {
    let described = describe_api_failure(ApiFailure::Status {
        code: 404,
        text: "Not Found".to_owned(),
    });

    assert_eq!(described.advice, "Check your configuration.");
    assert_eq!(described.detail, "Api request error Not Found, status code: 404");
}

#[test]
fn other_failure_keeps_its_rendered_description() {
    let described = describe_api_failure(ApiFailure::Other {
        description: "unexpected state".to_owned(),
    });

    assert_eq!(described.advice, "Check Hugging Face configuration");
    assert_eq!(described.detail, "unexpected state");
}

#[test]
fn hf_api_error_from_classifies_a_real_api_error() {
    let io_failure = std::io::Error::new(std::io::ErrorKind::UnexpectedEof, "interrupted");
    let described = hf_api_error_from(hf_hub::api::sync::ApiError::IoError(io_failure));

    assert_eq!(described.advice, "Check Hugging Face configuration");
    assert!(!described.detail.is_empty());
}

#[test]
fn tokenizer_error_carries_advice_and_cause() {
    let described = TokenizerError::from_description("data did not match any variant");

    assert_eq!(
        described.advice,
        "Tokenizer file might be corrupted. Try re-running the last operation"
    );
    assert_eq!(
        described.detail,
        "Tokenizer error: data did not match any variant"
    );
}

#[test]
fn encoding_error_names_the_failed_step() {
    assert_eq!(EncodingError::new().detail, "Encoding prompt");
}

#[test]
fn resolve_error_messages_match_their_cases() {
    let no_match = ResolveError::NoMatchingModel {
        requested: "example-modal".to_owned(),
        suggestion: Some("example-model".to_owned()),
    };
    assert_eq!(
        no_match.message(),
        "No model matching `example-modal`, did you mean `example-model`?"
    );

    let no_suggestion = ResolveError::NoMatchingModel {
        requested: "example-modal".to_owned(),
        suggestion: None,
    };
    assert_eq!(no_suggestion.message(), "No model matching `example-modal`.");
}

#[test]
fn prompt_error_messages_match_their_cases() {
    let too_large = PromptError::TooLarge { size: 20_048_001 };
    assert_eq!(
        too_large.message(),
        "Prompt context is too large: 20048001!"
    );
}
