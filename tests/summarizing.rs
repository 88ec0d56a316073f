use rig_compression::summarizing::{SummaryPlan, BRIEFING_HEAD, BRIEFING_TAIL};
use rig_compression::{
    AssistantContent, CompressionError, ContextCompressor, Message, SummarizingCompressor,
    ToolResultContent, UserContent,
};

#[test]
fn test_format_messages() {
    let messages = vec![
        Message::user("Hello, I need help with my code"),
        Message::assistant("Sure, I can help. What's the issue?"),
        Message::user("My function crashes"),
    ];

    assert_eq!(messages.len(), 3);
}

#[test]
fn format_messages_renders_transcript() {
    let compressor = SummarizingCompressor::new(());
    let messages = vec![
        Message::user("Hello, I need help with my code"),
        Message::assistant("Sure, I can help. What's the issue?"),
        Message::user("My function crashes"),
    ];
    let text = compressor.format_messages_for_summary(&messages);
    assert_eq!(
        text,
        "**[User Message 1]**\nHello, I need help with my code\n\n\
         **[Assistant Message 2]**\nSure, I can help. What's the issue?\n\n\
         **[User Message 3]**\nMy function crashes\n\n"
    );
}

#[test]
fn format_messages_renders_every_part() {
    let compressor = SummarizingCompressor::new(());
    let long_result = "r".repeat(2001);
    let long_arguments = "a".repeat(501);
    let messages = vec![
        Message::User {
            content: vec![
                UserContent::ToolResult {
                    id: "call_1".to_string(),
                    content: vec![
                        ToolResultContent::Text("ok".to_string()),
                        ToolResultContent::Image("img".to_string()),
                        ToolResultContent::Text(long_result.clone()),
                    ],
                },
                UserContent::Image("img".to_string()),
                UserContent::Document("report".to_string()),
            ],
        },
        Message::Assistant {
            content: vec![
                AssistantContent::ToolCall {
                    name: "run".to_string(),
                    arguments: long_arguments.clone(),
                },
                AssistantContent::ToolCall { name: "ls".to_string(), arguments: "{}".to_string() },
                AssistantContent::Reasoning(vec!["a b".to_string(), "c".to_string()]),
                AssistantContent::Image("img".to_string()),
            ],
        },
    ];
    let text = compressor.format_messages_for_summary(&messages);
    let expected = format!(
        "**[User Message 1]**\n[Tool Result for 'call_1']:\nok\n{}...[truncated]\n\
         [Image attached]\n[Document: report]\n\n\
         **[Assistant Message 2]**\n[Tool Call: run({}...)]\n[Tool Call: ls({{}})]\n\
         [Reasoning: a b c]\n[Image generated]\n\n",
        &long_result[..2000],
        &long_arguments[..500]
    );
    assert_eq!(text, expected);
}

#[test]
fn format_messages_numbers_past_nine() {
    let compressor = SummarizingCompressor::new(());
    let messages: Vec<Message> = (0..12).map(|_| Message::user("m")).collect();
    let text = compressor.format_messages_for_summary(&messages);
    assert!(text.ends_with("**[User Message 12]**\nm\n\n"));
    assert!(text.contains("**[User Message 10]**\nm\n\n"));
}

fn long_history() -> Vec<Message> {
    // estimates: 6, 104, 104, 7 and 7 tokens
    vec![
        Message::user("Start"),
        Message::user(&"x".repeat(340)),
        Message::assistant(&"y".repeat(340)),
        Message::user("Recent one"),
        Message::assistant("Recent two"),
    ]
}

fn pending(plan: SummaryPlan) -> rig_compression::summarizing::PendingSummary {
    match plan {
        SummaryPlan::Summarize(p) => p,
        SummaryPlan::Done(_) => panic!("expected a summary to be asked for"),
    }
}

#[test]
fn plan_asks_for_summary_of_middle() {
    let compressor = SummarizingCompressor::new(())
        .with_custom_prompt("Summarize:\n[CONVERSATION_HISTORY]END".to_string());
    let messages = long_history();
    let p = pending(compressor.plan_compression(messages.clone(), 50));
    assert_eq!(p.first, messages[..1].to_vec());
    assert_eq!(p.last, messages[3..].to_vec());
    let expected = format!(
        "Summarize:\n**[User Message 1]**\n{}\n\n**[Assistant Message 2]**\n{}\n\nEND",
        "x".repeat(340),
        "y".repeat(340)
    );
    assert_eq!(p.prompt, expected);
}

#[test]
fn plan_uses_builtin_template() {
    let compressor = SummarizingCompressor::new(());
    let messages = long_history();
    let p = pending(compressor.plan_compression(messages.clone(), 50));
    assert!(p.prompt.starts_with("**Your Role:** You are a specialized AI Context Compression Engine."));
    assert!(!p.prompt.contains("[CONVERSATION_HISTORY]"));
    assert!(p.prompt.contains(&format!("**Input:**\n**[User Message 1]**\n{}\n", "x".repeat(340))));
}

#[test]
fn finish_injects_briefing_between_head_and_tail() {
    let compressor = SummarizingCompressor::new(());
    let messages = long_history();
    let p = pending(compressor.plan_compression(messages.clone(), 50));
    let result = p.finish(50, Ok("short summary".to_string())).unwrap();
    let briefing = format!("{}short summary{}", BRIEFING_HEAD, BRIEFING_TAIL);
    assert_eq!(
        result,
        vec![
            messages[0].clone(),
            Message::user(&briefing),
            messages[3].clone(),
            messages[4].clone()
        ]
    );
    assert!(briefing.starts_with("**[CONTEXT CONTINUITY BRIEFING]**\n"));
    assert!(briefing.ends_with("\n\n*[End of briefing - conversation continues below]*"));
}

#[test]
fn finish_drops_summary_that_does_not_fit() {
    let compressor = SummarizingCompressor::new(());
    let messages = long_history();
    let p = pending(compressor.plan_compression(messages.clone(), 50));
    // kept messages 20 tokens, summary 100 tokens
    let result = p.finish(50, Ok("z".repeat(340))).unwrap();
    assert_eq!(result, vec![messages[0].clone(), messages[3].clone(), messages[4].clone()]);
    // 20 + 30 fits exactly
    let p = pending(compressor.plan_compression(messages.clone(), 50));
    let result = p.finish(50, Ok("z".repeat(102))).unwrap();
    assert_eq!(result.len(), 4);
}

#[test]
fn finish_reports_summarizer_failure() {
    let compressor = SummarizingCompressor::new(());
    let p = pending(compressor.plan_compression(long_history(), 50));
    let err = p.finish(50, Err("boom".to_string())).unwrap_err();
    assert_eq!(err, CompressionError::CompressionFailed("Summarization failed: boom".to_string()));
    assert_eq!(err.message(), "Compression failed: Summarization failed: boom");
}

#[test]
fn plan_skips_small_middle() {
    let compressor = SummarizingCompressor::new(());
    let messages = vec![
        Message::user("Start"),
        Message::user("short middle"),
        Message::assistant("another"),
        Message::user("Recent one"),
        Message::assistant("Recent two"),
    ];
    match compressor.plan_compression(messages.clone(), 10) {
        SummaryPlan::Done(out) => {
            assert_eq!(out, vec![messages[0].clone(), messages[3].clone(), messages[4].clone()])
        }
        SummaryPlan::Summarize(_) => panic!("a small middle is not summarized"),
    }
}

#[test]
fn plan_returns_history_that_fits_or_has_no_middle() {
    let compressor = SummarizingCompressor::new(());
    let messages = long_history();
    match compressor.plan_compression(messages.clone(), 1000) {
        SummaryPlan::Done(out) => assert_eq!(out, messages),
        SummaryPlan::Summarize(_) => panic!("a history that fits is kept"),
    }
    let short = vec![Message::user(&"x".repeat(340)), Message::user("b"), Message::user("c")];
    match compressor.plan_compression(short.clone(), 1) {
        SummaryPlan::Done(out) => assert_eq!(out, short),
        SummaryPlan::Summarize(_) => panic!("no middle to summarize"),
    }
    match compressor.plan_compression(vec![], 0) {
        SummaryPlan::Done(out) => assert!(out.is_empty()),
        SummaryPlan::Summarize(_) => panic!("nothing to summarize"),
    }
}

#[test]
fn sync_compress_keeps_head_and_tail() {
    let compressor = SummarizingCompressor::new(()).with_preserve_first(1).with_preserve_recent(1);
    let messages = long_history();
    let result = compressor.compress(messages.clone(), 50).unwrap();
    assert_eq!(result, vec![messages[0].clone(), messages[4].clone()]);
    let result = compressor.compress(messages.clone(), 1000).unwrap();
    assert_eq!(result, messages);
    assert_eq!(compressor.estimate_tokens(&messages), 228);
}

#[test]
fn builders_set_configuration() {
    let compressor = SummarizingCompressor::new(7u8)
        .with_preserve_first(3)
        .with_preserve_recent(4)
        .with_max_summary_tokens(500)
        .with_custom_prompt("p".to_string());
    assert_eq!(compressor.preserve_first, 3);
    assert_eq!(compressor.preserve_recent, 4);
    assert_eq!(compressor.max_summary_tokens, 500);
    assert_eq!(compressor.custom_prompt, Some("p".to_string()));
    assert_eq!(*compressor.summarizer, 7);
    let shared = std::sync::Arc::new(1u8);
    let compressor = SummarizingCompressor::from_arc(shared.clone());
    assert_eq!(compressor.preserve_first, 1);
    assert_eq!(compressor.preserve_recent, 2);
    assert_eq!(compressor.max_summary_tokens, 1000);
    assert_eq!(compressor.custom_prompt, None);
    assert!(std::sync::Arc::ptr_eq(&shared, &compressor.summarizer));
}

#[test]
fn error_messages() {
    assert_eq!(
        CompressionError::EstimationFailed("x".to_string()).message(),
        "Token estimation failed: x"
    );
    assert_eq!(
        CompressionError::InvalidStructure("y".to_string()).message(),
        "Invalid message structure: y"
    );
}
