use tokenator::errors::ResolveError;
use tokenator::models::{get_repo_id, model_name_suggestion, ModelEntry, ModelRegistry};
use tokenator::order::sorted_model_names;

fn entry(name: &str, hf: &str) -> ModelEntry {
    ModelEntry { name: name.to_owned(), hf: hf.to_owned() }
}

#[test]
fn model_name_suggestion_returns_closest_match() {
    let registry = ModelRegistry::from_entries(vec![
        entry("example-model", "example/Example-Model"),
        entry("nothing-to-do-with-the-other-one", "example/TheOtherExample"),
        entry("example-model:7b", "example/Example-7-B"),
    ]);
    let input_name = "example_model";

    let outcome = model_name_suggestion(&registry, input_name).unwrap();

    assert_eq!(outcome, "example-model");
}

#[test]
fn model_name_suggestion_returns_a_registered_name_itself() {
    let registry = ModelRegistry::from_entries(vec![
        entry("example-model", "example/Example-Model"),
        entry("example-model:7b", "example/Example-7-B"),
        entry("nothing-to-do-with-the-other-one", "example/TheOtherExample"),
    ]);

    let outcome = model_name_suggestion(&registry, "example-model:7b").unwrap();

    assert_eq!(outcome, "example-model:7b");
}

#[test]
fn model_name_suggestion_returns_none_for_empty_registry() {
    let registry = ModelRegistry::from_entries(Vec::new());

    let outcome = model_name_suggestion(&registry, "anything");

    assert!(outcome.is_none());
}

#[test]
fn get_repo_id_generates_expected_result_with_valid_input() {
    let registry = ModelRegistry::from_entries(vec![
        entry("example-model", "example/Example-Model"),
        entry("nothing-to-do-with-the-other-one", "example/TheOtherExample"),
    ]);

    let outcome = get_repo_id("example-model", &registry).unwrap();

    assert_eq!(outcome, "example/Example-Model");
}

#[test]
fn get_repo_id_generates_expected_error_with_invalid_input() {
    let registry = ModelRegistry::from_entries(vec![
        entry("example-model", "example/Example-Model"),
        entry("nothing-to-do-with-the-other-one", "example/TheOtherExample"),
    ]);

    let outcome = get_repo_id("example-modal", &registry).unwrap_err();

    assert_eq!(
        outcome.message(),
        "No model matching `example-modal`, did you mean `example-model`?"
    );
}

#[test]
fn get_repo_id_generates_expected_error_with_empty_model_name_map() {
    let registry = ModelRegistry::from_entries(Vec::new());

    let outcome = get_repo_id("example-modal", &registry).unwrap_err();

    assert!(matches!(outcome, ResolveError::EmptyCatalog));
    assert_eq!(outcome.message(), "Error: no models in model file");
}

#[test]
fn get_repo_id_fails_on_empty_registry_whatever_the_name() {
    let registry = ModelRegistry::from_entries(Vec::new());

    assert!(matches!(
        get_repo_id("", &registry).unwrap_err(),
        ResolveError::EmptyCatalog
    ));
    assert!(matches!(
        get_repo_id("example:latest", &registry).unwrap_err(),
        ResolveError::EmptyCatalog
    ));
}

#[test]
fn resolve_round_trip_for_single_entry_catalog() {
    let registry = ModelRegistry::from_entries(vec![entry("example:latest", "example/Example-1-M")]);

    let outcome = get_repo_id("example:latest", &registry).unwrap();

    assert_eq!(outcome, "example/Example-1-M");
}

#[test]
fn suggestion_attached_to_error_names_a_registered_model() {
    let registry = ModelRegistry::from_entries(vec![
        entry("alpha", "example/Alpha"),
        entry("beta", "example/Beta"),
    ]);

    let outcome = get_repo_id("alpa", &registry).unwrap_err();

    match outcome {
        ResolveError::NoMatchingModel { requested, suggestion } => {
            assert_eq!(requested, "alpa");
            let suggested = suggestion.unwrap();
            assert!(suggested == "alpha" || suggested == "beta");
            assert_eq!(suggested, "alpha");
        }
        ResolveError::EmptyCatalog => panic!("registry is not empty"),
    }
}

#[test]
fn duplicated_catalog_name_silently_overwrites() {
    let registry = ModelRegistry::from_entries(vec![
        entry("example-model", "example/Old"),
        entry("example-model", "example/New"),
    ]);

    let outcome = get_repo_id("example-model", &registry).unwrap();

    assert_eq!(outcome, "example/New");
    assert_eq!(registry.len(), 1);
}

#[test]
fn sorted_model_names_lists_every_name_in_order() {
    let registry = ModelRegistry::from_entries(vec![
        entry("mistral", "example/Mistral"),
        entry("alpha", "example/Alpha"),
        entry("zulu", "example/Zulu"),
        entry("beta", "example/Beta"),
    ]);

    let names = sorted_model_names(&registry);

    let expected = vec![
        "alpha".to_owned(),
        "beta".to_owned(),
        "mistral".to_owned(),
        "zulu".to_owned(),
    ];
    assert_eq!(names, expected);
}
