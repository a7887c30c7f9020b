use iced_docgen::dsl::levenshtein;

#[test]
fn test_levenshtein_distance() {
    assert_eq!(levenshtein("cat", "cat"), 0);
    assert_eq!(levenshtein("cat", "bat"), 1);
    assert_eq!(levenshtein("", "abc"), 3);
    assert_eq!(levenshtein("abc", ""), 3);
}

#[test]
fn test_levenshtein() {
    assert_eq!(levenshtein("cat", "cat"), 0);
    assert_eq!(levenshtein("cat", "bat"), 1);
    assert_eq!(levenshtein("kitten", "sitting"), 3);
}

#[test]
fn levenshtein_is_symmetric_on_examples() {
    assert_eq!(levenshtein("flaw", "lawn"), levenshtein("lawn", "flaw"));
    assert_eq!(levenshtein("flaw", "lawn"), 2);
}

#[test]
fn levenshtein_counts_characters_not_bytes() {
    assert_eq!(levenshtein("é", "e"), 1);
    assert_eq!(levenshtein("日本", "日本語"), 1);
}

#[test]
fn levenshtein_bounded_by_longer_length() {
    assert_eq!(levenshtein("abc", "xyz"), 3);
    assert!(levenshtein("abcd", "xy") <= 4);
    assert!(levenshtein("abcd", "xy") >= 2);
}

#[test]
fn levenshtein_triangle_on_examples() {
    let (a, b, c) = ("kitten", "sitting", "mitten");
    assert!(levenshtein(a, c) <= levenshtein(a, b) + levenshtein(b, c));
    assert_eq!(levenshtein(a, c), 1);
}
