use fuse::error::FuseError;
use fuse::inference::backend::Token;
use fuse::inference::streaming::{collect_stream, CollectedOutput};

fn make_test_stream() -> Vec<Result<Token, FuseError>> {
    vec![
        Ok(Token { text: "Hello".to_string(), id: 1 }),
        Ok(Token { text: " world".to_string(), id: 2 }),
        Ok(Token { text: "!".to_string(), id: 3 }),
    ]
}

#[test]
fn test_collect_stream() {
    let output = collect_stream(make_test_stream()).unwrap();
    assert_eq!(output.text, "Hello world!");
    assert_eq!(output.token_count(), 3);
    assert_eq!(output.token_ids(), vec![1, 2, 3]);
}

#[test]
fn test_collect_empty_stream() {
    let output = collect_stream(Vec::new()).unwrap();
    assert_eq!(output.text, "");
    assert_eq!(output.token_count(), 0);
}

#[test]
fn collect_stream_stops_at_first_error() {
    let mut items = make_test_stream();
    items.insert(1, Err(FuseError::InferenceError("boom".to_string())));
    items.push(Err(FuseError::InferenceError("later".to_string())));
    match collect_stream(items) {
        Err(FuseError::InferenceError(m)) => assert_eq!(m, "boom"),
        _ => panic!("expected the first error"),
    }
}

#[test]
fn collected_output_pushes_in_order() {
    let mut out = CollectedOutput::new();
    out.push(Token { text: "a".to_string(), id: 9 });
    out.push(Token { text: "bc".to_string(), id: 4 });
    assert_eq!(out.text, "abc");
    assert_eq!(out.token_ids(), vec![9, 4]);
}
