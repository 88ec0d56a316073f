//! The conversation data that compression reads and rearranges.
use vstd::prelude::*;

verus! {

/// A part of a tool's result.
#[derive(Clone, Debug, PartialEq, Eq)]
pub enum ToolResultContent {
    Text(String),
    /// An image, held as its encoded payload.
    Image(String),
}

/// A part of a message written by the user (or handed back by a tool).
#[derive(Clone, Debug, PartialEq, Eq)]
pub enum UserContent {
    Text(String),
    ToolResult { id: String, content: Vec<ToolResultContent> },
    Image(String),
    Audio(String),
    Video(String),
    /// A document, held as its textual rendering.
    Document(String),
}

/// A part of a message written by the assistant.
#[derive(Clone, Debug, PartialEq, Eq)]
pub enum AssistantContent {
    Text(String),
    /// A call of a tool: its name and its serialized arguments.
    ToolCall { name: String, arguments: String },
    /// Private reasoning, as a sequence of fragments.
    Reasoning(Vec<String>),
    Image(String),
}

/// One message of a conversation, in chronological order within a history.
#[derive(Clone, Debug, PartialEq, Eq)]
#[allow(inconsistent_fields)]
pub enum Message {
    User { content: Vec<UserContent> },
    Assistant { content: Vec<AssistantContent> },
}

/// `m` is a user message made of the one text part `text`.
pub open spec fn is_user_text(m: Message, text: Seq<char>) -> bool {
    match m {
        Message::User { content } => content@.len() == 1 && match content@[0] {
            UserContent::Text(t) => t@ == text,
            _ => false,
        },
        _ => false,
    }
}

/// `m` is an assistant message made of the one text part `text`.
pub open spec fn is_assistant_text(m: Message, text: Seq<char>) -> bool {
    match m {
        Message::Assistant { content } => content@.len() == 1 && match content@[0] {
            AssistantContent::Text(t) => t@ == text,
            _ => false,
        },
        _ => false,
    }
}

impl Message {
    /// A user message holding one text part.
    pub fn user(text: &str) -> (m: Message)
        ensures
            is_user_text(m, text@),
    {
        let mut content: Vec<UserContent> = Vec::new();
        content.push(UserContent::Text(String::from_str(text)));
        Message::User { content }
    }

    /// An assistant message holding one text part.
    pub fn assistant(text: &str) -> (m: Message)
        ensures
            is_assistant_text(m, text@),
    {
        let mut content: Vec<AssistantContent> = Vec::new();
        content.push(AssistantContent::Text(String::from_str(text)));
        Message::Assistant { content }
    }
}

} // verus!
