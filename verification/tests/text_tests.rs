use tourist_core::textutil::contains_str;
use tourist_core::textutil::first_tokens;
use tourist_core::textutil::is_blank;
use tourist_core::textutil::str_eq;
use tourist_core::textutil::u64_to_string;
use tourist_core::file_handler::FileHandler;
use tourist_core::models::AppError;
use tourist_core::models::OllamaRequest;

#[test]
fn substring_search() {
    assert!(contains_str("hello world", "lo w"));
    assert!(contains_str("hello", "hello"));
    assert!(contains_str("hello", ""));
    assert!(!contains_str("abc", "abcd"));
    assert!(!contains_str("hello", "world"));
}

#[test]
fn tokenizer_keeps_first_three_words() {
    let toks = first_tokens("  alpha  bb ccc dddd ", 3);
    assert_eq!(toks.len(), 3);
    assert_eq!(toks[0], "alpha");
    assert_eq!(toks[1], "bb");
    assert_eq!(toks[2], "ccc");
}

#[test]
fn tokenizer_on_short_and_empty_input() {
    assert_eq!(first_tokens("one two", 3).len(), 2);
    assert_eq!(first_tokens("", 3).len(), 0);
    assert_eq!(first_tokens("   \t\n ", 3).len(), 0);
}

#[test]
fn blank_detection() {
    assert!(is_blank(""));
    assert!(is_blank(" \t\r\n"));
    assert!(!is_blank(" a "));
}

#[test]
fn string_equality_by_characters() {
    assert!(str_eq("abc", "abc"));
    assert!(!str_eq("abc", "abd"));
    assert!(!str_eq("abc", "ab"));
}

#[test]
fn decimal_rendering() {
    assert_eq!(u64_to_string(0), "0");
    assert_eq!(u64_to_string(7), "7");
    assert_eq!(u64_to_string(1234), "1234");
    assert_eq!(u64_to_string(18446744073709551615), "18446744073709551615");
}

#[test]
fn file_context_prompt_assembly() {
    assert_eq!(FileHandler::create_prompt_with_file_context("", "hi"), "hi");
    assert_eq!(FileHandler::create_prompt_with_file_context("FC", "hi"), "FC\n\nhi");
}

#[test]
fn app_error_carries_its_message() {
    let e = AppError::new(String::from("boom"));
    assert_eq!(e.message(), "boom");
    assert_eq!(e.0, "boom");
}

#[test]
fn generation_request_never_streams() {
    let r = OllamaRequest::new(String::from("m"), String::from("p"));
    assert_eq!(r.model, "m");
    assert_eq!(r.prompt, "p");
    assert!(!r.stream);
}
