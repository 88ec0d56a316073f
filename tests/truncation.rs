use rig_compression::{ContextCompressor, Message, TruncationCompressor};

#[test]
fn test_truncation_empty_messages() {
    let compressor = TruncationCompressor::new();
    let result = compressor.compress(vec![], 100).unwrap();
    assert!(result.is_empty());
}

#[test]
fn test_truncation_within_budget() {
    let compressor = TruncationCompressor::new();
    let messages = vec![Message::user("Hello")];
    let result = compressor.compress(messages.clone(), 1000).unwrap();
    assert_eq!(result.len(), 1);
}

#[test]
fn test_truncation_exceeds_budget() {
    let compressor = TruncationCompressor::new();
    let messages = vec![
        Message::user("First message that is quite long to use some tokens"),
        Message::assistant("Second message also with content"),
        Message::user("Third message"),
    ];

    let result = compressor.compress(messages, 50).unwrap();
    assert!(!result.is_empty());
    assert!(result.len() <= 3);
}

fn three() -> Vec<Message> {
    // estimates: 19, 14 and 8 tokens
    vec![
        Message::user("First message that is quite long to use some tokens"),
        Message::assistant("Second message also with content"),
        Message::user("Third message"),
    ]
}

fn is_suffix(out: &[Message], h: &[Message]) -> bool {
    out.len() <= h.len() && out == &h[h.len() - out.len()..]
}

#[test]
fn truncation_scenario_small_budget_keeps_a_suffix() {
    let messages = three();
    let compressor = TruncationCompressor::new().with_min_preserve(1);
    let result = compressor.compress(messages.clone(), 50).unwrap();
    assert!(!result.is_empty());
    assert!(result.len() >= 1 && result.len() <= 3);
    assert!(is_suffix(&result, &messages));
}

#[test]
fn truncation_keeps_longest_fitting_suffix() {
    let messages = three();
    let compressor = TruncationCompressor::new();
    assert_eq!(compressor.compress(messages.clone(), 41).unwrap(), messages);
    assert_eq!(compressor.compress(messages.clone(), 40).unwrap(), messages[1..].to_vec());
    assert_eq!(compressor.compress(messages.clone(), 22).unwrap(), messages[1..].to_vec());
    assert_eq!(compressor.compress(messages.clone(), 21).unwrap(), messages[2..].to_vec());
    assert_eq!(compressor.compress(messages.clone(), 8).unwrap(), messages[2..].to_vec());
}

#[test]
fn truncation_keeps_min_preserve_over_budget() {
    let messages = three();
    // nothing fits: the newest message stays all the same
    let result = TruncationCompressor::new().compress(messages.clone(), 0).unwrap();
    assert_eq!(result, messages[2..].to_vec());
    let result = TruncationCompressor::new()
        .with_min_preserve(2)
        .compress(messages.clone(), 0)
        .unwrap();
    assert_eq!(result, messages[1..].to_vec());
    let result = TruncationCompressor::new()
        .with_min_preserve(5)
        .compress(messages.clone(), 0)
        .unwrap();
    assert_eq!(result, messages);
    let result = TruncationCompressor::new()
        .with_min_preserve(0)
        .compress(messages.clone(), 0)
        .unwrap();
    assert!(result.is_empty());
}

#[test]
fn truncation_output_bounds_hold_for_all_budgets() {
    let messages = three();
    for min_preserve in 0..5usize {
        let compressor = TruncationCompressor::new().with_min_preserve(min_preserve);
        for budget in 0..50usize {
            let result = compressor.compress(messages.clone(), budget).unwrap();
            assert!(result.len() >= min_preserve.min(messages.len()));
            assert!(result.len() <= messages.len());
            assert!(is_suffix(&result, &messages));
        }
    }
}

#[test]
fn truncation_needs_compression_and_estimate() {
    let messages = three();
    let compressor = TruncationCompressor::new();
    assert_eq!(compressor.estimate_tokens(&messages), 41);
    assert!(compressor.needs_compression(&messages, 40));
    assert!(!compressor.needs_compression(&messages, 41));
}
