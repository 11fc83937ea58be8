use tokenator::similarity::similarity;

#[test]
fn similarity_of_a_string_against_itself_is_maximal() {
    let score = similarity("example-model", "example-model");
    assert_eq!(score.0, score.1);

    let score = similarity("a", "a");
    assert_eq!(score.0, score.1);
}

#[test]
fn similarity_of_two_empty_strings_is_maximal() {
    assert_eq!(similarity("", ""), (1, 1));
}

#[test]
fn similarity_is_symmetric() {
    assert_eq!(similarity("ab", "ba"), similarity("ba", "ab"));
    assert_eq!(similarity("example-model", "example_model"), similarity("example_model", "example-model"));
}

#[test]
fn similarity_counts_an_adjacent_transposition_as_one_edit() {
    assert_eq!(similarity("ab", "ba"), (1, 2));
}

#[test]
fn similarity_of_disjoint_strings_is_zero() {
    assert_eq!(similarity("", "flower"), (0, 6));
    assert_eq!(similarity("xyz", "abc"), (0, 3));
}

#[test]
fn similarity_matches_known_distances() {
    // two substitutions and one insertion apart
    assert_eq!(similarity("ab", "bca"), (1, 3));
    // one substitution apart
    assert_eq!(similarity("example-modal", "example-model"), (12, 13));
}
