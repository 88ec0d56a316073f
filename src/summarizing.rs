//! Summarizing compression: the middle of a history is replaced by one
//! briefing message that an outside language model writes.
//!
//! The call to the model is the only step that waits. The library splits
//! the work around it: `plan_compression` decides whether a summary is
//! needed and writes the prompt; the caller sends the prompt; and
//! `PendingSummary::finish` turns the model's answer into the new history.
use vstd::prelude::*;

use std::sync::Arc;

use crate::estimator::{
    estimate_messages_tokens, estimate_range_tokens, estimate_tokens, messages_tokens,
    text_tokens,
};
use crate::message::{is_user_text, AssistantContent, Message, ToolResultContent, UserContent};
use crate::sliding_window::{head_len, lemma_three_parts, tail_len};
use crate::traits::{
    drops_one_run, keeps_order, lemma_drops_nothing, lemma_drops_run,
    lemma_drops_run_keeps_order, CompressionError, ContextCompressor,
};
use crate::text::{
    clip, decimal, joined, push_clipped, push_decimal, push_joined, replace_all, replace_all_str,
};

verus! {

/// The concatenation of `f` over the elements of `s`.
pub open spec fn concat_map<A>(s: Seq<A>, f: spec_fn(A) -> Seq<char>) -> Seq<char>
    decreases s.len(),
{
    if s.len() == 0 {
        Seq::empty()
    } else {
        concat_map(s.drop_last(), f) + f(s.last())
    }
}

/// Longest text of a tool result that a transcript shows.
pub const TOOL_RESULT_LIMIT: usize = 2000;

/// Longest tool-call argument text that a transcript shows.
pub const TOOL_ARGUMENTS_LIMIT: usize = 500;

/// How a part of a tool result reads in a transcript.
pub open spec fn tool_result_part_text(c: ToolResultContent) -> Seq<char> {
    match c {
        ToolResultContent::Text(t) => clip(t@, TOOL_RESULT_LIMIT as nat, "...[truncated]"@) + "\n"@,
        ToolResultContent::Image(_) => Seq::empty(),
    }
}

/// How a part of a user message reads in a transcript.
pub open spec fn user_part_text(c: UserContent) -> Seq<char> {
    match c {
        UserContent::Text(t) => t@ + "\n"@,
        UserContent::ToolResult { id, content } => "[Tool Result for '"@ + id@ + "']:\n"@
            + concat_map(content@, |p: ToolResultContent| tool_result_part_text(p)),
        UserContent::Image(_) => "[Image attached]\n"@,
        UserContent::Audio(_) => "[Audio attached]\n"@,
        UserContent::Video(_) => "[Video attached]\n"@,
        UserContent::Document(d) => "[Document: "@ + d@ + "]\n"@,
    }
}

/// How a part of an assistant message reads in a transcript.
pub open spec fn assistant_part_text(c: AssistantContent) -> Seq<char> {
    match c {
        AssistantContent::Text(t) => t@ + "\n"@,
        AssistantContent::ToolCall { name, arguments } => "[Tool Call: "@ + name@ + "("@ + clip(
            arguments@,
            TOOL_ARGUMENTS_LIMIT as nat,
            "..."@,
        ) + ")]\n"@,
        AssistantContent::Reasoning(r) => "[Reasoning: "@ + joined(r@, " "@) + "]\n"@,
        AssistantContent::Image(_) => "[Image generated]\n"@,
    }
}

/// How message number `number` (counting from 1) reads in a transcript: a
/// header with its role and number, its parts, and a blank line.
pub open spec fn message_text(m: Message, number: nat) -> Seq<char> {
    match m {
        Message::User { content } => "**[User Message "@ + decimal(number) + "]**\n"@ + concat_map(
            content@,
            |c: UserContent| user_part_text(c),
        ) + "\n"@,
        Message::Assistant { content } => "**[Assistant Message "@ + decimal(number) + "]**\n"@
            + concat_map(content@, |c: AssistantContent| assistant_part_text(c)) + "\n"@,
    }
}

/// The transcript of the first `k` messages of `ms`.
pub open spec fn transcript_prefix(ms: Seq<Message>, k: nat) -> Seq<char>
    decreases k,
{
    if k == 0 || k > ms.len() {
        Seq::empty()
    } else {
        transcript_prefix(ms, (k - 1) as nat) + message_text(ms[k - 1], k)
    }
}

/// The transcript of `ms` that a summarizer reads.
pub open spec fn transcript(ms: Seq<Message>) -> Seq<char> {
    transcript_prefix(ms, ms.len())
}

proof fn lemma_concat_map_step<A>(s: Seq<A>, i: int, f: spec_fn(A) -> Seq<char>)
    requires
        0 <= i < s.len(),
    ensures
        concat_map(s.subrange(0, i + 1), f) == concat_map(s.subrange(0, i), f) + f(s[i]),
{
    assert(s.subrange(0, i + 1).drop_last() =~= s.subrange(0, i));
}

fn push_tool_result(out: &mut String, id: &String, content: &Vec<ToolResultContent>)
    ensures
        final(out)@ == old(out)@ + user_part_text(
            UserContent::ToolResult { id: *id, content: *content },
        ),
{
    let ghost f = |p: ToolResultContent| tool_result_part_text(p);
    out.append("[Tool Result for '");
    out.append(id.as_str());
    out.append("']:\n");
    let ghost start = out@;
    let mut i: usize = 0;
    while i < content.len()
        invariant
            i <= content@.len(),
            f == (|p: ToolResultContent| tool_result_part_text(p)),
            out@ == start + concat_map(content@.subrange(0, i as int), f),
        decreases content@.len() - i,
    {
        proof {
            lemma_concat_map_step(content@, i as int, f);
        }
        match &content[i] {
            ToolResultContent::Text(t) => {
                push_clipped(out, t.as_str(), TOOL_RESULT_LIMIT, "...[truncated]");
                out.append("\n");
            },
            ToolResultContent::Image(_) => {},
        }
        i = i + 1;
        assert(out@ =~= start + concat_map(content@.subrange(0, i as int), f));
    }
    assert(content@.subrange(0, i as int) =~= content@);
    assert(final(out)@ =~= old(out)@ + user_part_text(
        UserContent::ToolResult { id: *id, content: *content },
    ));
}

fn push_user_part(out: &mut String, c: &UserContent)
    ensures
        final(out)@ == old(out)@ + user_part_text(*c),
{
    match c {
        UserContent::Text(t) => {
            out.append(t.as_str());
            out.append("\n");
            assert(final(out)@ =~= old(out)@ + user_part_text(*c));
        },
        UserContent::ToolResult { id, content } => push_tool_result(out, id, content),
        UserContent::Image(_) => out.append("[Image attached]\n"),
        UserContent::Audio(_) => out.append("[Audio attached]\n"),
        UserContent::Video(_) => out.append("[Video attached]\n"),
        UserContent::Document(d) => {
            out.append("[Document: ");
            out.append(d.as_str());
            out.append("]\n");
            assert(final(out)@ =~= old(out)@ + user_part_text(*c));
        },
    }
}

fn push_assistant_part(out: &mut String, c: &AssistantContent)
    ensures
        final(out)@ == old(out)@ + assistant_part_text(*c),
{
    match c {
        AssistantContent::Text(t) => {
            out.append(t.as_str());
            out.append("\n");
        },
        AssistantContent::ToolCall { name, arguments } => {
            out.append("[Tool Call: ");
            out.append(name.as_str());
            out.append("(");
            push_clipped(out, arguments.as_str(), TOOL_ARGUMENTS_LIMIT, "...");
            out.append(")]\n");
        },
        AssistantContent::Reasoning(r) => {
            out.append("[Reasoning: ");
            push_joined(out, r, " ");
            out.append("]\n");
        },
        AssistantContent::Image(_) => out.append("[Image generated]\n"),
    }
    assert(final(out)@ =~= old(out)@ + assistant_part_text(*c));
}

fn push_message(out: &mut String, m: &Message, number: usize)
    ensures
        final(out)@ == old(out)@ + message_text(*m, number as nat),
{
    match m {
        Message::User { content } => {
            let ghost f = |c: UserContent| user_part_text(c);
            out.append("**[User Message ");
            push_decimal(out, number);
            out.append("]**\n");
            let ghost start = out@;
            let mut i: usize = 0;
            while i < content.len()
                invariant
                    i <= content@.len(),
                    f == (|c: UserContent| user_part_text(c)),
                    out@ == start + concat_map(content@.subrange(0, i as int), f),
                decreases content@.len() - i,
            {
                proof {
                    lemma_concat_map_step(content@, i as int, f);
                }
                push_user_part(out, &content[i]);
                i = i + 1;
                assert(out@ =~= start + concat_map(content@.subrange(0, i as int), f));
            }
            assert(content@.subrange(0, i as int) =~= content@);
        },
        Message::Assistant { content } => {
            let ghost f = |c: AssistantContent| assistant_part_text(c);
            out.append("**[Assistant Message ");
            push_decimal(out, number);
            out.append("]**\n");
            let ghost start = out@;
            let mut i: usize = 0;
            while i < content.len()
                invariant
                    i <= content@.len(),
                    f == (|c: AssistantContent| assistant_part_text(c)),
                    out@ == start + concat_map(content@.subrange(0, i as int), f),
                decreases content@.len() - i,
            {
                proof {
                    lemma_concat_map_step(content@, i as int, f);
                }
                push_assistant_part(out, &content[i]);
                i = i + 1;
                assert(out@ =~= start + concat_map(content@.subrange(0, i as int), f));
            }
            assert(content@.subrange(0, i as int) =~= content@);
        },
    }
    out.append("\n");
    assert(final(out)@ =~= old(out)@ + message_text(*m, number as nat));
}

/// Render `messages` as the transcript a summarizer reads.
pub fn render_transcript(messages: &[Message]) -> (r: String)
    ensures
        r@ == transcript(messages@),
{
    let mut out = String::new();
    let mut i: usize = 0;
    while i < messages.len()
        invariant
            i <= messages@.len(),
            out@ == transcript_prefix(messages@, i as nat),
        decreases messages@.len() - i,
    {
        push_message(&mut out, &messages[i], i + 1);
        i = i + 1;
    }
    out
}


/// The text in a prompt template that the transcript replaces.
pub const HISTORY_PLACEHOLDER: &'static str = "[CONVERSATION_HISTORY]";

/// The built-in prompt template, which asks for a "Continuity Briefing".
pub const SUMMARIZATION_PROMPT: &'static str = r#"**Your Role:** You are a specialized AI Context Compression Engine.

**Your Task:** Analyze the provided conversation with an AI Coding Agent and generate a "Continuity Briefing." The primary goal of this briefing is to give the AI Agent a detailed understanding of the *current state* so it can resume the task perfectly, with only a very brief summary of the steps that led here.

**Instructions:**
1.  **Prioritize the Present:** The most detailed information should be about the immediate task and current code state.
2.  **Summarize the Past:** The history should be a very high-level overview. Do not detail every previous attempt or code iteration.
3.  **Be Unambiguous:** Use clear and direct language. The goal is function, not prose.
4.  **Strictly Follow the Output Format:** The entire output must adhere to the specified Markdown format below.

**Input:**
[CONVERSATION_HISTORY]

**Output Format (Strict):**

### 🎯 **Overall Goal**
*A single, concise sentence describing the user's main objective.*

### 🗺️ **Recent Path (Brief Summary)**
*A very brief, high-level summary of the last 2-3 major steps taken. Focus on the *outcome* of those steps, not the process.*
*   **Example:** "Initial function `X` was created. User found an issue with edge case `Y`. The last attempt to fix it resulted in error `Z`."

---

### 📍 **Current State (Detailed Explanation)**
*This is the most important section. Provide a detailed snapshot of where the project is RIGHT NOW.*

*   **Current Focus:** What specific file, function, or module are we currently working on? (e.g., "Refining the `parse_json_payload` function in `api_handler.py`.")
*   **Immediate Obstacle/Task:** What is the exact problem to be solved or the next specific action to be taken? (e.g., "The function fails with a `KeyError` when the 'optional_field' is missing from the input JSON. The immediate task is to add robust error handling for this specific case.")
*   **Code Status:**
    *   **Relevant Code Snippet:** *Include only the small, specific block of code (function, loop, etc.) that is the direct subject of the current task.*
    *   **Last Known Error:** If applicable, state the exact error message and a brief explanation. (e.g., "Error: `KeyError: 'optional_field'`. This occurs on line 23 when the function tries to access a key that doesn't exist.")
*   **Key Constraints & Requirements:** List any critical user requirements relevant to the *immediate* task. (e.g., "The solution must not use a try-except block; the user wants a conditional check. The function must return `None` if the field is missing.")

### 🚀 **Next Action Required**
*A clear, one-sentence directive for the AI.*
*   **Example:** "AI needs to modify the provided code snippet to check for the existence of 'optional_field' before accessing it and return `None` if it's absent."
"#;

/// The text that opens a briefing message.
pub const BRIEFING_HEAD: &'static str = "**[CONTEXT CONTINUITY BRIEFING]**\n*The following is a compressed summary of the preceding conversation:*\n\n";

/// The text that closes a briefing message.
pub const BRIEFING_TAIL: &'static str = "\n\n*[End of briefing - conversation continues below]*";

/// Middles estimated below this many tokens are dropped, not summarized.
pub const MIN_SUMMARY_SOURCE_TOKENS: usize = 100;

/// The text of the briefing message that carries `summary`.
pub open spec fn briefing_text(summary: Seq<char>) -> Seq<char> {
    BRIEFING_HEAD@ + summary + BRIEFING_TAIL@
}

/// The prompt that asks to summarize `middle`, made from `template`.
pub open spec fn summary_prompt(template: Seq<char>, middle: Seq<Message>) -> Seq<char> {
    replace_all(template, HISTORY_PLACEHOLDER@, transcript(middle))
}

/// Replaces the middle of a history by a summary that a language model
/// writes, keeping `preserve_first` messages at the head and
/// `preserve_recent` at the tail.
pub struct SummarizingCompressor<P> {
    /// The model asked for summaries, shared with its other users.
    pub summarizer: Arc<P>,
    /// How many of the oldest messages are kept.
    pub preserve_first: usize,
    /// How many of the newest messages are kept.
    pub preserve_recent: usize,
    /// The summary length asked for, in tokens; a hint, not enforced.
    pub max_summary_tokens: usize,
    /// A prompt template to use instead of the built-in one; the
    /// transcript replaces `[CONVERSATION_HISTORY]` in it.
    pub custom_prompt: Option<String>,
}

/// The template that a compressor with `custom_prompt` uses.
pub open spec fn template_of(custom_prompt: Option<String>) -> Seq<char> {
    match custom_prompt {
        Some(p) => p@,
        None => SUMMARIZATION_PROMPT@,
    }
}

/// The head and tail that summarization keeps of `h`, and the middle between.
pub open spec fn summary_head(h: Seq<Message>, preserve_first: nat) -> Seq<Message> {
    h.subrange(0, head_len(h.len(), preserve_first) as int)
}

pub open spec fn summary_tail(h: Seq<Message>, preserve_first: nat, preserve_recent: nat) -> Seq<Message> {
    h.subrange(h.len() - tail_len(h.len(), preserve_first, preserve_recent), h.len() as int)
}

pub open spec fn summary_middle(h: Seq<Message>, preserve_first: nat, preserve_recent: nat) -> Seq<Message> {
    h.subrange(
        head_len(h.len(), preserve_first) as int,
        h.len() - tail_len(h.len(), preserve_first, preserve_recent),
    )
}

/// What the synchronous fallback keeps of `h`: all of it if it fits, else
/// its head and tail.
pub open spec fn head_and_tail(h: Seq<Message>, max_tokens: nat, preserve_first: nat, preserve_recent: nat) -> Seq<Message> {
    if h.len() == 0 || messages_tokens(h) <= max_tokens {
        h
    } else {
        summary_head(h, preserve_first) + summary_tail(h, preserve_first, preserve_recent)
    }
}

/// Whether summarizing `h` calls the model: `h` exceeds the budget and its
/// middle is non-empty and estimated at 100 tokens or more.
pub open spec fn calls_summarizer(h: Seq<Message>, max_tokens: nat, preserve_first: nat, preserve_recent: nat) -> bool {
    &&& h.len() > 0
    &&& messages_tokens(h) > max_tokens
    &&& summary_middle(h, preserve_first, preserve_recent).len() > 0
    &&& messages_tokens(summary_middle(h, preserve_first, preserve_recent))
        >= MIN_SUMMARY_SOURCE_TOKENS
}

/// The first step of a summarizing compression.
pub enum SummaryPlan {
    /// No summary is needed: this is the compressed history.
    Done(Vec<Message>),
    /// The prompt is to be sent to the summarizer; its answer goes to
    /// `finish_compression`.
    Summarize(PendingSummary),
}

/// A compression that waits for the summarizer's answer.
pub struct PendingSummary {
    /// The kept head of the history.
    pub first: Vec<Message>,
    /// The kept tail of the history.
    pub last: Vec<Message>,
    /// The prompt for the summarizer.
    pub prompt: String,
}

impl PendingSummary {
    /// The kept messages can be estimated without overflow.
    pub open spec fn wf(&self) -> bool {
        messages_tokens(self.first@) + messages_tokens(self.last@) <= usize::MAX
    }
}

impl<P> SummarizingCompressor<P> {
    /// A compressor that asks `summarizer`, keeping one head message and two
    /// tail messages.
    pub fn new(summarizer: P) -> (r: SummarizingCompressor<P>)
        ensures
            r.preserve_first == 1,
            r.preserve_recent == 2,
            r.max_summary_tokens == 1000,
            r.custom_prompt is None,
    {
        SummarizingCompressor::from_arc(Arc::new(summarizer))
    }

    /// A compressor that asks a shared `summarizer`, keeping one head
    /// message and two tail messages.
    pub fn from_arc(summarizer: Arc<P>) -> (r: SummarizingCompressor<P>)
        ensures
            r.preserve_first == 1,
            r.preserve_recent == 2,
            r.max_summary_tokens == 1000,
            r.custom_prompt is None,
    {
        SummarizingCompressor {
            summarizer,
            preserve_first: 1,
            preserve_recent: 2,
            max_summary_tokens: 1000,
            custom_prompt: None,
        }
    }

    /// Keep the `count` oldest messages.
    pub fn with_preserve_first(self, count: usize) -> (r: SummarizingCompressor<P>)
        ensures
            r.preserve_first == count,
            r.preserve_recent == self.preserve_recent,
            r.max_summary_tokens == self.max_summary_tokens,
            r.custom_prompt == self.custom_prompt,
    {
        SummarizingCompressor { preserve_first: count, ..self }
    }

    /// Keep the `count` newest messages.
    pub fn with_preserve_recent(self, count: usize) -> (r: SummarizingCompressor<P>)
        ensures
            r.preserve_first == self.preserve_first,
            r.preserve_recent == count,
            r.max_summary_tokens == self.max_summary_tokens,
            r.custom_prompt == self.custom_prompt,
    {
        SummarizingCompressor { preserve_recent: count, ..self }
    }

    /// Ask for summaries of about `tokens` tokens.
    pub fn with_max_summary_tokens(self, tokens: usize) -> (r: SummarizingCompressor<P>)
        ensures
            r.preserve_first == self.preserve_first,
            r.preserve_recent == self.preserve_recent,
            r.max_summary_tokens == tokens,
            r.custom_prompt == self.custom_prompt,
    {
        SummarizingCompressor { max_summary_tokens: tokens, ..self }
    }

    /// Use `prompt` as the template; the transcript replaces
    /// `[CONVERSATION_HISTORY]` in it.
    pub fn with_custom_prompt(self, prompt: String) -> (r: SummarizingCompressor<P>)
        ensures
            r.preserve_first == self.preserve_first,
            r.preserve_recent == self.preserve_recent,
            r.max_summary_tokens == self.max_summary_tokens,
            r.custom_prompt == Some(prompt),
    {
        SummarizingCompressor { custom_prompt: Some(prompt), ..self }
    }

    /// Render `messages` as the transcript a summarizer reads: each message
    /// under a numbered header with its role, each part on its own lines.
    pub fn format_messages_for_summary(&self, messages: &[Message]) -> (r: String)
        ensures
            r@ == transcript(messages@),
    {
        render_transcript(messages)
    }

    /// The prompt that asks for a summary of `messages`.
    pub fn summarization_prompt(&self, messages: &[Message]) -> (r: String)
        ensures
            r@ == summary_prompt(template_of(self.custom_prompt), messages@),
    {
        let conversation = render_transcript(messages);
        proof {
            reveal_strlit("[CONVERSATION_HISTORY]");
        }
        match &self.custom_prompt {
            Some(template) => replace_all_str(template.as_str(), HISTORY_PLACEHOLDER, conversation.as_str()),
            None => replace_all_str(SUMMARIZATION_PROMPT, HISTORY_PLACEHOLDER, conversation.as_str()),
        }
    }
}

/// Where the middle is estimated under 100 tokens, the summarizer is not
/// asked, and head and tail alone are kept.
pub proof fn lemma_small_middle_is_dropped(h: Seq<Message>, max_tokens: nat, preserve_first: nat, preserve_recent: nat)
    requires
        h.len() > 0,
        messages_tokens(h) > max_tokens,
        messages_tokens(summary_middle(h, preserve_first, preserve_recent))
            < MIN_SUMMARY_SOURCE_TOKENS,
    ensures
        !calls_summarizer(h, max_tokens, preserve_first, preserve_recent),
        head_and_tail(h, max_tokens, preserve_first, preserve_recent) == summary_head(
            h,
            preserve_first,
        ) + summary_tail(h, preserve_first, preserve_recent),
{
}

/// A briefed history keeps the order of the history it came from: without
/// the briefing message, it is that history with its middle taken out.
pub proof fn lemma_briefing_keeps_order(out: Seq<Message>, h: Seq<Message>, preserve_first: nat, preserve_recent: nat, summary: Seq<char>)
    requires
        briefed(
            out,
            summary_head(h, preserve_first),
            summary_tail(h, preserve_first, preserve_recent),
            summary,
        ),
    ensures
        drops_one_run(out.remove(head_len(h.len(), preserve_first) as int), h),
        keeps_order(out.remove(head_len(h.len(), preserve_first) as int), h),
{
    let s = head_len(h.len(), preserve_first) as int;
    let t = h.len() - tail_len(h.len(), preserve_first, preserve_recent);
    let rest = out.remove(s);
    assert(rest =~= out.subrange(0, s) + out.subrange(s + 1, out.len() as int));
    assert(rest =~= h.subrange(0, s) + h.subrange(t, h.len() as int));
    lemma_drops_run(h, s, t);
    lemma_drops_run_keeps_order(rest, h);
}

/// `out` is `first`, then the one briefing message that carries `summary`,
/// then `last`.
pub open spec fn briefed(out: Seq<Message>, first: Seq<Message>, last: Seq<Message>, summary: Seq<char>) -> bool {
    &&& out.len() == first.len() + 1 + last.len()
    &&& out.subrange(0, first.len() as int) == first
    &&& is_user_text(out[first.len() as int], briefing_text(summary))
    &&& out.subrange(first.len() as int + 1, out.len() as int) == last
}

impl PendingSummary {
    /// Complete the compression with the summarizer's `outcome`: its error
    /// text, or the summary. A summary that does not fit the budget beside
    /// the kept messages is dropped; else it is placed between them as one
    /// briefing message.
    pub fn finish(self, max_tokens: usize, outcome: Result<String, String>) -> (r: Result<
        Vec<Message>,
        CompressionError,
    >)
        requires
            self.wf(),
        ensures
            match outcome {
                Err(e) => r matches Err(CompressionError::CompressionFailed(t)) && t@
                    == "Summarization failed: "@ + e@,
                Ok(summary) => r is Ok && if messages_tokens(self.first@) + messages_tokens(
                    self.last@,
                ) + text_tokens(summary@) > max_tokens {
                    r->Ok_0@ == self.first@ + self.last@
                } else {
                    briefed(r->Ok_0@, self.first@, self.last@, summary@)
                },
            },
    {
        let PendingSummary { first, last, prompt: _ } = self;
        let summary = match outcome {
            Err(e) => {
                let mut text = String::from_str("Summarization failed: ");
                text.append(e.as_str());
                return Err(CompressionError::CompressionFailed(text));
            },
            Ok(summary) => summary,
        };
        let preserved = estimate_messages_tokens(first.as_slice()) + estimate_messages_tokens(
            last.as_slice(),
        );
        let summary_tokens = estimate_tokens(summary.as_str());
        let mut first = first;
        let mut last = last;
        let ghost first0 = first@;
        let ghost last0 = last@;
        if preserved > max_tokens || summary_tokens > max_tokens - preserved {
            first.append(&mut last);
            return Ok(first);
        }
        let mut text = String::from_str(BRIEFING_HEAD);
        text.append(summary.as_str());
        text.append(BRIEFING_TAIL);
        first.push(Message::user(text.as_str()));
        first.append(&mut last);
        proof {
            assert(first@.subrange(0, first0.len() as int) =~= first0);
            assert(first@.subrange(first0.len() as int + 1, first@.len() as int) =~= last0);
        }
        Ok(first)
    }
}

/// Split `messages` into its messages `0..s`, `s..t` and `t..`.
fn split_three(messages: Vec<Message>, s: usize, t: usize) -> (r: (Vec<Message>, Vec<Message>, Vec<Message>))
    requires
        s <= t <= messages@.len(),
    ensures
        r.0@ == messages@.subrange(0, s as int),
        r.1@ == messages@.subrange(s as int, t as int),
        r.2@ == messages@.subrange(t as int, messages@.len() as int),
{
    let mut messages = messages;
    let last = messages.split_off(t);
    let middle = messages.split_off(s);
    (messages, middle, last)
}

impl<P> SummarizingCompressor<P> {
    /// The first step of a compression that may ask the summarizer.
    ///
    /// A history that is empty or fits comes back as it is. Otherwise it is
    /// split into head, middle and tail; a middle that is empty or estimated
    /// under 100 tokens is dropped, and head and tail come back. Otherwise
    /// the result holds head, tail and the prompt that asks for a summary
    /// of the middle.
    pub fn plan_compression(&self, messages: Vec<Message>, max_tokens: usize) -> (r: SummaryPlan)
        requires
            messages_tokens(messages@) <= usize::MAX,
        ensures
            match r {
                SummaryPlan::Summarize(p) => {
                    &&& calls_summarizer(
                        messages@,
                        max_tokens as nat,
                        self.preserve_first as nat,
                        self.preserve_recent as nat,
                    )
                    &&& p.wf()
                    &&& p.first@ == summary_head(messages@, self.preserve_first as nat)
                    &&& p.last@ == summary_tail(
                        messages@,
                        self.preserve_first as nat,
                        self.preserve_recent as nat,
                    )
                    &&& p.prompt@ == summary_prompt(
                        template_of(self.custom_prompt),
                        summary_middle(
                            messages@,
                            self.preserve_first as nat,
                            self.preserve_recent as nat,
                        ),
                    )
                },
                SummaryPlan::Done(out) => {
                    &&& !calls_summarizer(
                        messages@,
                        max_tokens as nat,
                        self.preserve_first as nat,
                        self.preserve_recent as nat,
                    )
                    &&& out@ == head_and_tail(
                        messages@,
                        max_tokens as nat,
                        self.preserve_first as nat,
                        self.preserve_recent as nat,
                    )
                },
            },
    {
        let ghost h = messages@;
        if messages.len() == 0 {
            return SummaryPlan::Done(messages);
        }
        if estimate_messages_tokens(messages.as_slice()) <= max_tokens {
            return SummaryPlan::Done(messages);
        }
        let n = messages.len();
        let s = if self.preserve_first <= n { self.preserve_first } else { n };
        let e = if self.preserve_recent <= n - s { self.preserve_recent } else { n - s };
        proof {
            lemma_three_parts(h, s as int, (n - e) as int);
        }
        let middle_tokens = estimate_range_tokens(messages.as_slice(), s, n - e);
        let (mut first, middle, mut last) = split_three(messages, s, n - e);
        if s >= n - e || middle_tokens < MIN_SUMMARY_SOURCE_TOKENS {
            first.append(&mut last);
            return SummaryPlan::Done(first);
        }
        let prompt = self.summarization_prompt(middle.as_slice());
        SummaryPlan::Summarize(PendingSummary { first, last, prompt })
    }
}

impl<P> ContextCompressor for SummarizingCompressor<P> {
    /// Without a way to wait for the summarizer, the middle of an
    /// over-budget history is dropped and its head and tail are kept.
    fn compress(&self, messages: Vec<Message>, max_tokens: usize) -> (r: Result<
        Vec<Message>,
        CompressionError,
    >)
        ensures
            r is Ok,
            r->Ok_0@ == head_and_tail(
                messages@,
                max_tokens as nat,
                self.preserve_first as nat,
                self.preserve_recent as nat,
            ),
    {
        let ghost h = messages@;
        proof {
            lemma_drops_nothing(h);
        }
        if messages.len() == 0 {
            return Ok(messages);
        }
        if estimate_messages_tokens(messages.as_slice()) <= max_tokens {
            return Ok(messages);
        }
        let n = messages.len();
        let s = if self.preserve_first <= n { self.preserve_first } else { n };
        let e = if self.preserve_recent <= n - s { self.preserve_recent } else { n - s };
        let (mut first, _middle, mut last) = split_three(messages, s, n - e);
        first.append(&mut last);
        proof {
            lemma_drops_run(h, s as int, (n - e) as int);
        }
        Ok(first)
    }

    fn estimate_tokens(&self, messages: &[Message]) -> (r: usize) {
        estimate_messages_tokens(messages)
    }
}

} // verus!
