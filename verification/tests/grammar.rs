use fuse::inference::grammar::{Grammar, GrammarState};

#[test]
fn test_json_grammar_basic() {
    let mut state = GrammarState::new(Grammar::Json);
    state.advance("{");
    assert!(!state.is_complete());
    state.advance("\"key\"");
    state.advance(":");
    state.advance("\"value\"");
    state.advance("}");
    assert!(state.is_complete());
    assert!(state.validate_output().is_ok());
}

#[test]
fn test_json_grammar_nested() {
    let mut state = GrammarState::new(Grammar::Json);
    state.advance("{\"a\":{\"b\":1}}");
    assert!(state.is_complete());
    assert!(state.validate_output().is_ok());
}

#[test]
fn test_json_grammar_array() {
    let mut state = GrammarState::new(Grammar::Json);
    state.advance("[1,2,3]");
    assert!(state.is_complete());
    assert!(state.validate_output().is_ok());
}

#[test]
fn test_json_grammar_incomplete() {
    let mut state = GrammarState::new(Grammar::Json);
    state.advance("{\"key\":");
    assert!(!state.is_complete());
}

#[test]
fn test_json_grammar_invalid() {
    let mut state = GrammarState::new(Grammar::Json);
    state.advance("not json at all");
    assert!(state.validate_output().is_err());
}

#[test]
fn invalid_json_error_carries_the_parser_message() {
    let mut state = GrammarState::new(Grammar::Json);
    state.advance("  {\"a\": }  ");
    let err = state.validate_output().unwrap_err();
    assert!(err.message().starts_with("Invalid JSON output: "));
    assert!(err.message().len() > "Invalid JSON output: ".len());
}

#[test]
fn test_json_token_allowed_start() {
    let state = GrammarState::new(Grammar::Json);
    assert!(state.is_token_allowed("{"));
    assert!(state.is_token_allowed("["));
    assert!(state.is_token_allowed("\""));
}

#[test]
fn json_tokens_after_the_start() {
    let mut state = GrammarState::new(Grammar::Json);
    assert!(!state.is_token_allowed("hello"));
    assert!(state.is_token_allowed("   "));
    state.advance("{");
    assert!(state.is_token_allowed("\"key\": 1.5e3,"));
    assert!(!state.is_token_allowed("a;b"));
    state.advance("\"");
    assert!(state.is_token_allowed("a;b"));
}

#[test]
fn token_mask_marks_each_vocabulary_entry() {
    let state = GrammarState::new(Grammar::Json);
    let vocab = vec!["{".to_string(), "hello".to_string(), "[".to_string(), "\u{0}".to_string()];
    assert_eq!(state.token_mask(&vocab), vec![true, false, true, false]);
}

#[test]
fn test_string_tracking() {
    let mut state = GrammarState::new(Grammar::Json);
    state.advance("{\"");
    assert!(state.in_string);
    state.advance("key");
    assert!(state.in_string);
    state.advance("\"");
    assert!(!state.in_string);
}

#[test]
fn test_escape_in_string() {
    let mut state = GrammarState::new(Grammar::Json);
    state.advance("{\"key\\\"still_string\"");
    assert!(!state.in_string);
}

#[test]
fn depth_follows_braces_and_brackets_outside_strings() {
    let mut state = GrammarState::new(Grammar::Json);
    state.advance("{\"a\":[1,{\"}\":2}");
    assert_eq!(state.depth, 2);
    assert_eq!(state.output(), "{\"a\":[1,{\"}\":2}");
}

#[test]
fn test_regex_grammar() {
    let state = GrammarState::new(Grammar::Regex("\\d+".to_string()));
    assert!(state.is_token_allowed("123"));
    assert!(state.is_token_allowed("abc"));
    assert!(!state.is_token_allowed(""));
}

#[test]
fn regex_validation_looks_for_the_pattern_text() {
    let mut state = GrammarState::new(Grammar::Regex("abc".to_string()));
    state.advance("xxabcxx");
    assert!(state.validate_output().is_ok());
    let mut state = GrammarState::new(Grammar::Regex("zzz".to_string()));
    state.advance("abc");
    assert_eq!(state.validate_output().unwrap_err().message(), "Output does not match regex: zzz");
    assert!(state.is_complete());
}
