use rig_compression::{
    estimate_message_tokens, estimate_messages_tokens, estimate_tokens, AssistantContent,
    ContextEstimate, Message, ToolResultContent, UserContent,
};

#[test]
fn test_estimate_tokens_empty() {
    assert_eq!(estimate_tokens(""), 0);
}

#[test]
fn test_estimate_tokens_short() {
    // 5 characters / 3.4 = 1.47, rounded up
    assert_eq!(estimate_tokens("hello"), 2);
}

#[test]
fn test_estimate_tokens_code() {
    let code = "fn main() { println!(\"Hello, world!\"); }";
    let tokens = estimate_tokens(code);
    // 40 characters / 3.4 = 11.76, rounded up
    assert_eq!(tokens, 12);
}

#[test]
fn test_estimate_tokens_longer() {
    let text = "a".repeat(340);
    assert_eq!(estimate_tokens(&text), 100);
}

#[test]
fn test_context_estimate() {
    let system_prompt = "You are a helpful assistant.";
    let tool_defs = r#"[{"name":"read_file","description":"Read a file"}]"#;
    let messages = vec![Message::user("Hello"), Message::assistant("Hi there!")];

    let estimate = ContextEstimate::new(system_prompt, tool_defs, &messages, 200_000);

    assert!(estimate.system_prompt_tokens > 0);
    assert!(estimate.tool_definitions_tokens > 0);
    assert!(estimate.messages_tokens > 0);
    assert_eq!(
        estimate.total_tokens,
        estimate.system_prompt_tokens + estimate.tool_definitions_tokens + estimate.messages_tokens
    );
    assert_eq!(estimate.context_window, 200_000);
    assert!(estimate.usage_percent < 1);
}

#[test]
fn test_context_estimate_needs_compression() {
    let large_text = "x".repeat(6800);
    let messages = vec![Message::user(&large_text)];

    let estimate = ContextEstimate::new("", "", &messages, 2000);

    assert!(estimate.needs_compression(80));
    assert!(!estimate.needs_compression(120));
}

#[test]
fn estimate_tokens_rounds_up_by_characters() {
    assert_eq!(estimate_tokens("a"), 1);
    assert_eq!(estimate_tokens("abc"), 1);
    assert_eq!(estimate_tokens("abcd"), 2);
    // 17 characters are exactly 5 tokens; one more starts a sixth
    assert_eq!(estimate_tokens(&"b".repeat(17)), 5);
    assert_eq!(estimate_tokens(&"b".repeat(18)), 6);
    assert_eq!(estimate_tokens(&"c".repeat(34)), 10);
    assert_eq!(estimate_tokens(&"c".repeat(35)), 11);
    // characters, not bytes
    assert_eq!(estimate_tokens("\u{e9}\u{e9}\u{e9}\u{e9}"), 2);
}

#[test]
fn estimate_tokens_matches_ceiling_for_many_lengths() {
    for len in 1..400usize {
        let text = "q".repeat(len);
        let expected = (len * 10 + 33) / 34;
        assert_eq!(estimate_tokens(&text), expected);
        assert!(expected as f64 >= len as f64 / 3.4 - 1e-9);
        assert!((expected as f64 - 1.0) < len as f64 / 3.4);
    }
}

#[test]
fn message_tokens_count_each_part() {
    assert_eq!(estimate_message_tokens(&Message::user("Hello")), 6);
    assert_eq!(estimate_message_tokens(&Message::assistant("Hi there!")), 7);
    let tool_result = Message::User {
        content: vec![UserContent::ToolResult {
            id: "abc".to_string(),
            content: vec![
                ToolResultContent::Text("hello".to_string()),
                ToolResultContent::Image("data".to_string()),
            ],
        }],
    };
    // id 1 + text 2 + image 85 + overhead 4
    assert_eq!(estimate_message_tokens(&tool_result), 92);
    let media = Message::User {
        content: vec![
            UserContent::Image("i".to_string()),
            UserContent::Audio("a".to_string()),
            UserContent::Video("v".to_string()),
            UserContent::Document("0123456789".to_string()),
        ],
    };
    // 85 + 100 + 100 + 3 + 4
    assert_eq!(estimate_message_tokens(&media), 292);
    let assistant = Message::Assistant {
        content: vec![
            AssistantContent::ToolCall {
                name: "read_file".to_string(),
                arguments: "{\"path\":\"a.rs\"}".to_string(),
            },
            AssistantContent::Reasoning(vec!["think".to_string(), "more".to_string()]),
            AssistantContent::Image("i".to_string()),
        ],
    };
    // name 3 + arguments 5 + reasoning 2 + 2 + image 85 + overhead 4
    assert_eq!(estimate_message_tokens(&assistant), 101);
    let empty = Message::User { content: vec![] };
    assert_eq!(estimate_message_tokens(&empty), 4);
}

#[test]
fn messages_tokens_sum_messages() {
    let messages = vec![Message::user("Hello"), Message::assistant("Hi there!")];
    assert_eq!(estimate_messages_tokens(&messages), 13);
    assert_eq!(estimate_messages_tokens(&[]), 0);
}

#[test]
fn context_estimate_exact_values() {
    let messages = vec![Message::user("Hello"), Message::assistant("Hi there!")];
    let estimate = ContextEstimate::new("You are a helpful assistant.", "", &messages, 100);
    assert_eq!(estimate.system_prompt_tokens, 9);
    assert_eq!(estimate.tool_definitions_tokens, 0);
    assert_eq!(estimate.messages_tokens, 13);
    assert_eq!(estimate.total_tokens, 22);
    assert_eq!(estimate.usage_percent, 22);
    assert!(estimate.needs_compression(22));
    assert!(!estimate.needs_compression(23));
    assert_eq!(estimate.threshold_tokens(80), 80);

    let big = ContextEstimate::new("", "", &[Message::user(&"x".repeat(6800))], 2000);
    assert_eq!(big.total_tokens, 2004);
    assert_eq!(big.usage_percent, 100);
    assert_eq!(big.threshold_tokens(80), 1600);
    assert_eq!(big.threshold_tokens(33), 660);
}

#[test]
fn context_estimate_zero_window() {
    let estimate = ContextEstimate::new("abc", "", &[], 0);
    assert_eq!(estimate.total_tokens, 1);
    assert_eq!(estimate.usage_percent, 0);
    assert!(estimate.needs_compression(0));
    assert!(!estimate.needs_compression(1));
    assert_eq!(estimate.threshold_tokens(50), 0);
}

#[test]
fn context_estimate_rounds_percent_down() {
    // 3 tokens of a window of 7: 42.86 percent
    let estimate = ContextEstimate::new("abcdefghij", "", &[], 7);
    assert_eq!(estimate.total_tokens, 3);
    assert_eq!(estimate.usage_percent, 42);
}
