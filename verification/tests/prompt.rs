use tokenator::errors::PromptError;
use tokenator::prompt::{get_prompt, PROMPT_MAX_BYTES};

#[test]
fn get_prompt_returns_prompt_for_string_input() {
    let input_prompt = "Why is the sky blue?";

    let outcome = get_prompt(None, Some(input_prompt)).unwrap();

    assert_eq!(outcome, input_prompt);
}

#[test]
fn get_prompt_returns_prompt_for_file_input() {
    let content = "Why is the sky blue?";

    let outcome = get_prompt(Some(content), None).unwrap();

    assert_eq!(outcome, content);
}

#[test]
fn get_prompt_handles_empty_prompt() {
    let outcome = get_prompt(None, Some("")).unwrap_err();

    assert_eq!(outcome.message(), "Missing a prompt value");
}

#[test]
fn get_prompt_rejects_a_whitespace_only_prompt() {
    let outcome = get_prompt(None, Some(" \t\n ")).unwrap_err();

    assert_eq!(outcome.message(), "Missing a prompt value");
}

#[test]
fn get_prompt_returns_file_input_prompt_when_both_string_and_file_input_are_provided() {
    let content = "Why is the sky blue?";
    let input_prompt = "Why is the sea blue?";

    let outcome = get_prompt(Some(content), Some(input_prompt)).unwrap();

    assert_eq!(outcome, content);
}

#[test]
fn get_prompt_returns_error_if_neither_string_nor_file_input_are_provided() {
    let outcome = get_prompt(None, None).unwrap_err();

    assert_eq!(
        outcome.message(),
        "Supply a file containing the prompt text or the prompt as a string"
    );
}

#[test]
fn get_prompt_rejects_an_oversized_prompt() {
    let oversized = "a".repeat(PROMPT_MAX_BYTES + 1);

    let outcome = get_prompt(None, Some(oversized.as_str())).unwrap_err();

    match outcome {
        PromptError::TooLarge { size } => assert_eq!(size, PROMPT_MAX_BYTES + 1),
        _ => panic!("expected the size cap to reject the prompt"),
    }
}
