use glowbot::telegram::split_for_telegram;

#[test]
fn test_split_short_text() {
    let result = split_for_telegram("hello", 10);
    assert_eq!(result, vec!["hello"]);
}

#[test]
fn test_split_exact_fit() {
    let result = split_for_telegram("1234567890", 10);
    assert_eq!(result, vec!["1234567890"]);
}

#[test]
fn test_split_at_newline() {
    let text = "first line\nsecond line\nthird line";
    let result = split_for_telegram(text, 20);
    assert_eq!(result.len(), 3);
    assert_eq!(result[0], "first line\n");
    assert_eq!(result[1], "second line\n");
    assert_eq!(result[2], "third line");
}

#[test]
fn test_split_no_newline() {
    let text = "abcdefghijklmnop";
    let result = split_for_telegram(text, 5);
    assert_eq!(result.len(), 4);
    assert_eq!(result[0], "abcde");
    assert_eq!(result[1], "fghij");
    assert_eq!(result[2], "klmno");
    assert_eq!(result[3], "p");
}

#[test]
fn test_split_empty() {
    let result = split_for_telegram("", 10);
    assert!(result.is_empty());
}

#[test]
fn test_split_multiple_newlines() {
    let text = "a\n\nb\n\nc";
    let result = split_for_telegram(text, 3);
    assert_eq!(result, vec!["a\n\n", "b\n\n", "c"]);
}

#[test]
fn split_chunks_join_back_to_the_text() {
    let text = "line one\nline two is longer\nthree\n\nfive and the rest of it";
    let chunks = split_for_telegram(text, 12);
    assert_eq!(chunks.concat(), text);
    for c in &chunks {
        assert!(!c.is_empty());
        assert!(c.chars().count() <= 12);
    }
}

#[test]
fn split_counts_characters_not_bytes() {
    // each "é" takes two bytes but counts as one character
    let result = split_for_telegram("éééé", 3);
    assert_eq!(result, vec!["ééé", "é"]);
    let result = split_for_telegram("ab\ncd", 3);
    assert_eq!(result, vec!["ab\n", "cd"]);
    for c in split_for_telegram("😀😀😀😀😀", 2) {
        assert!(c.chars().count() <= 2);
    }
}
