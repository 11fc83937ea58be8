use tokenator::token::{count_tokens, create_tokeniser};

fn word_level_definition() -> String {
    let mut definition = String::new();
    definition.push_str("{\"version\":\"1.0\",");
    definition.push_str("\"pre_tokenizer\":{\"type\":\"Whitespace\"},");
    definition.push_str("\"model\":{\"type\":\"WordLevel\",");
    definition.push_str("\"vocab\":{\"Why\":0,\"is\":1,\"the\":2,\"sky\":3,\"blue\":4,\"?\":5,\"[UNK]\":6},");
    definition.push_str("\"unk_token\":\"[UNK]\"}}");
    definition
}

#[test]
fn create_tokeniser_returns_expected_value() {
    let definition = word_level_definition();

    let tokeniser = create_tokeniser(definition.as_bytes());

    assert!(tokeniser.is_ok());
}

#[test]
fn create_tokeniser_rejects_corrupted_bytes() {
    let outcome = match create_tokeniser(b"not a tokenizer definition") {
        Err(e) => e,
        Ok(_) => panic!("expected a load failure"),
    };

    assert_eq!(
        outcome.advice,
        "Tokenizer file might be corrupted. Try re-running the last operation"
    );
    assert!(outcome.detail.starts_with("Tokenizer error: "));
}

#[test]
fn count_tokens_returns_expected_value() {
    let definition = word_level_definition();
    let tokeniser = create_tokeniser(definition.as_bytes()).unwrap();

    let count = count_tokens(&tokeniser, "Why is the sky blue?").unwrap();

    assert_eq!(count, 6);
}

#[test]
fn count_tokens_returns_zero_for_an_empty_prompt() {
    let definition = word_level_definition();
    let tokeniser = create_tokeniser(definition.as_bytes()).unwrap();

    let count = count_tokens(&tokeniser, "").unwrap();

    assert_eq!(count, 0);
}

fn word_level_definition_with_truncation(max_length: u32) -> String {
    let mut definition = String::new();
    definition.push_str("{\"version\":\"1.0\",");
    definition.push_str(&format!(
        "\"truncation\":{{\"max_length\":{max_length},\"strategy\":\"LongestFirst\",\"stride\":0}},"
    ));
    definition.push_str("\"pre_tokenizer\":{\"type\":\"Whitespace\"},");
    definition
        .push_str("\"post_processor\":{\"type\":\"BertProcessing\",\"sep\":[\"[SEP]\",5],\"cls\":[\"[CLS]\",6]},");
    definition.push_str("\"model\":{\"type\":\"WordLevel\",");
    definition.push_str("\"vocab\":{\"Why\":0,\"is\":1,\"the\":2,\"sky\":3,\"blue\":4,\"[SEP]\":5,\"[CLS]\":6},");
    definition.push_str("\"unk_token\":\"[SEP]\"}}");
    definition
}

#[test]
fn create_tokeniser_rejects_a_truncation_bound_below_the_added_tokens() {
    let definition = word_level_definition_with_truncation(0);

    let outcome = match create_tokeniser(definition.as_bytes()) {
        Err(e) => e,
        Ok(_) => panic!("expected a load failure"),
    };

    assert_eq!(
        outcome.advice,
        "Tokenizer file might be corrupted. Try re-running the last operation"
    );
    assert_eq!(
        outcome.detail,
        "Tokenizer error: truncation max_length is below the post-processor's added token count"
    );
}

#[test]
fn create_tokeniser_accepts_a_truncation_bound_above_the_added_tokens() {
    let definition = word_level_definition_with_truncation(512);

    let tokeniser = create_tokeniser(definition.as_bytes()).unwrap();

    let count = count_tokens(&tokeniser, "Why is the sky blue").unwrap();
    assert_eq!(count, 7);
}

#[test]
fn create_tokeniser_rejects_a_model_with_merge_dropout() {
    let mut definition = String::new();
    definition.push_str("{\"version\":\"1.0\",");
    definition.push_str("\"model\":{\"type\":\"BPE\",\"dropout\":0.5,");
    definition.push_str("\"vocab\":{\"a\":0,\"b\":1,\"ab\":2},\"merges\":[[\"a\",\"b\"]]}}");

    let outcome = match create_tokeniser(definition.as_bytes()) {
        Err(e) => e,
        Ok(_) => panic!("expected a load failure"),
    };

    assert_eq!(
        outcome.advice,
        "Tokenizer file might be corrupted. Try re-running the last operation"
    );
    assert_eq!(
        outcome.detail,
        "Tokenizer error: BPE merge dropout makes encoding nondeterministic"
    );
}

#[test]
fn count_tokens_maps_unknown_words_without_failing() {
    let definition = word_level_definition();
    let tokeniser = create_tokeniser(definition.as_bytes()).unwrap();

    let count = count_tokens(&tokeniser, "Why is the sea blue?").unwrap();

    assert_eq!(count, 6);
}
