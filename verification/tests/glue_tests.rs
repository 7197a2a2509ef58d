use task_runner::error::MyError;
use task_runner::search::{find_matches, try_find_matches};

#[test]
fn sum_of_two_numbers() {
    assert_eq!(task_runner::add(5, 7), 12);
    assert_eq!(task_runner::add(-3, 3), 0);
}

#[test]
fn words_of_four_or_more_characters() {
    let text = "Hello 123, this is Rust 2025!";
    let words = find_matches(r"\b\w{4,}\b", text);
    assert_eq!(words, vec!["Hello", "this", "Rust", "2025"]);
}

#[test]
fn no_match_gives_empty_list() {
    let words = find_matches("xyz", "abc");
    assert!(words.is_empty());
}

#[test]
fn invalid_pattern_is_rejected() {
    assert!(try_find_matches(r"foo(bar", "foobar").is_none());
}

#[test]
fn valid_pattern_is_accepted() {
    let words = try_find_matches("ab", "abcab").unwrap();
    assert_eq!(words, vec!["ab", "ab"]);
}

#[test]
fn error_displays_code_and_message() {
    let err = MyError { code: 404, message: String::from("Not Found") };
    assert_eq!(err.display_string(), "Error 404: Not Found");
    let err = MyError { code: 0, message: String::from("fine") };
    assert_eq!(err.display_string(), "Error 0: fine");
}
