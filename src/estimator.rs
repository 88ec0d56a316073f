//! Token estimation by a fixed characters-per-token ratio.
//!
//! The ratio 3.4 characters per token is calibrated for code, which is
//! denser in symbols than prose (about 4.0 characters per token).
use vstd::prelude::*;

use crate::message::{AssistantContent, Message, ToolResultContent, UserContent};

verus! {

/// Tokens charged for each message on top of its content (role, framing).
pub const MESSAGE_OVERHEAD: usize = 4;

/// Tokens charged for an image.
pub const IMAGE_TOKENS: usize = 85;

/// Tokens charged for an audio or a video clip.
pub const MEDIA_TOKENS: usize = 100;

/// The estimate for a text of `s.len()` characters: the ceiling of
/// `s.len() / 3.4`, that is of `10 * s.len() / 34`.
pub open spec fn text_tokens(s: Seq<char>) -> nat {
    ((10 * s.len() + 33) / 34) as nat
}

/// `text_tokens` is the ceiling of `len / 3.4`: the least count of tokens
/// whose 3.4 characters each cover the text.
pub proof fn lemma_text_tokens_is_ceiling(s: Seq<char>)
    ensures
        34 * text_tokens(s) >= 10 * s.len(),
        s.len() > 0 ==> 34 * (text_tokens(s) - 1) < 10 * s.len(),
        s.len() == 0 ==> text_tokens(s) == 0,
{
    let n = 10 * s.len() + 33;
    let q = n / 34;
    assert(n == 34 * q + n % 34) by (nonlinear_arith)
        requires q == n / 34;
}

/// Estimate the number of tokens of a text: 0 for an empty text, else
/// the number of its characters divided by 3.4, rounded up.
pub fn estimate_tokens(text: &str) -> (r: usize)
    ensures
        r == text_tokens(text@),
        text@.len() == 0 ==> r == 0,
        r <= text@.len(),
{
    let len = text.unicode_len();
    let q = len / 34;
    let rem = len % 34;
    proof {
        assert(len == 34 * q + rem) by (nonlinear_arith)
            requires q == len / 34, rem == len % 34;
        assert((10 * len + 33) / 34 == 10 * q + (10 * rem + 33) / 34) by (nonlinear_arith)
            requires len == 34 * q + rem, 0 <= rem < 34;
        assert(10 * q + (10 * rem + 33) / 34 <= len) by (nonlinear_arith)
            requires len == 34 * q + rem, 0 <= rem < 34, q >= 0;
    }
    10 * q + (10 * rem + 33) / 34
}

/// The sum of `f` over the elements of `s`.
pub open spec fn total<A>(s: Seq<A>, f: spec_fn(A) -> nat) -> nat
    decreases s.len(),
{
    if s.len() == 0 {
        0
    } else {
        total(s.drop_last(), f) + f(s.last())
    }
}

/// The sum over a concatenation is the sum of the sums.
pub proof fn lemma_total_concat<A>(a: Seq<A>, b: Seq<A>, f: spec_fn(A) -> nat)
    ensures
        total(a + b, f) == total(a, f) + total(b, f),
    decreases b.len(),
{
    if b.len() == 0 {
        assert(a + b =~= a);
    } else {
        assert((a + b).drop_last() =~= a + b.drop_last());
        lemma_total_concat(a, b.drop_last(), f);
    }
}

/// Extending a prefix by one element adds that element's value.
pub proof fn lemma_total_step<A>(s: Seq<A>, i: int, f: spec_fn(A) -> nat)
    requires
        0 <= i < s.len(),
    ensures
        total(s.subrange(0, i + 1), f) == total(s.subrange(0, i), f) + f(s[i]),
        total(s.subrange(0, i + 1), f) <= total(s, f),
{
    assert(s.subrange(0, i + 1).drop_last() =~= s.subrange(0, i));
    lemma_total_concat(s.subrange(0, i + 1), s.subrange(i + 1, s.len() as int), f);
    assert(s.subrange(0, i + 1) + s.subrange(i + 1, s.len() as int) =~= s);
}

/// The estimate of one part of a tool result.
pub open spec fn tool_result_part_tokens(c: ToolResultContent) -> nat {
    match c {
        ToolResultContent::Text(t) => text_tokens(t@),
        ToolResultContent::Image(_) => IMAGE_TOKENS as nat,
    }
}

/// The estimate of one part of a user message.
pub open spec fn user_part_tokens(c: UserContent) -> nat {
    match c {
        UserContent::Text(t) => text_tokens(t@),
        UserContent::ToolResult { id, content } => text_tokens(id@) + total(
            content@,
            |p: ToolResultContent| tool_result_part_tokens(p),
        ),
        UserContent::Image(_) => IMAGE_TOKENS as nat,
        UserContent::Audio(_) => MEDIA_TOKENS as nat,
        UserContent::Video(_) => MEDIA_TOKENS as nat,
        UserContent::Document(d) => text_tokens(d@),
    }
}

/// The sum of the estimates of reasoning fragments.
pub open spec fn fragments_tokens(fragments: Seq<String>) -> nat {
    total(fragments, |f: String| text_tokens(f@))
}

/// The estimate of one part of an assistant message.
pub open spec fn assistant_part_tokens(c: AssistantContent) -> nat {
    match c {
        AssistantContent::Text(t) => text_tokens(t@),
        AssistantContent::ToolCall { name, arguments } => text_tokens(name@) + text_tokens(
            arguments@,
        ),
        AssistantContent::Reasoning(r) => fragments_tokens(r@),
        AssistantContent::Image(_) => IMAGE_TOKENS as nat,
    }
}

/// The estimate of one message: its parts plus the fixed overhead.
pub open spec fn message_tokens(m: Message) -> nat {
    (MESSAGE_OVERHEAD + match m {
        Message::User { content } => total(content@, |c: UserContent| user_part_tokens(c)),
        Message::Assistant { content } => total(
            content@,
            |c: AssistantContent| assistant_part_tokens(c),
        ),
    }) as nat
}

/// The estimate of a history: the sum over its messages.
pub open spec fn messages_tokens(h: Seq<Message>) -> nat {
    total(h, |m: Message| message_tokens(m))
}

/// The estimate of `h` is the sum of the estimates of its two parts.
pub proof fn lemma_messages_tokens_concat(a: Seq<Message>, b: Seq<Message>)
    ensures
        messages_tokens(a + b) == messages_tokens(a) + messages_tokens(b),
{
    lemma_total_concat(a, b, |m: Message| message_tokens(m));
}

/// A history of one message estimates as that message.
pub proof fn lemma_messages_tokens_single(m: Message)
    ensures
        messages_tokens(seq![m]) == message_tokens(m),
{
    let f = |x: Message| message_tokens(x);
    assert(seq![m].drop_last() =~= Seq::<Message>::empty());
    assert(total(seq![m], f) == total(Seq::<Message>::empty(), f) + f(m));
}

/// `n`, or `usize::MAX` where `n` is larger: what a sum of estimates
/// reports when it does not fit in a `usize`.
pub open spec fn capped(n: nat) -> nat {
    if n <= usize::MAX { n } else { usize::MAX as nat }
}

fn estimate_tool_result_tokens(content: &Vec<ToolResultContent>) -> (r: usize)
    ensures
        r == capped(total(content@, |p: ToolResultContent| tool_result_part_tokens(p))),
{
    let ghost f = |p: ToolResultContent| tool_result_part_tokens(p);
    let mut sum: usize = 0;
    let mut i: usize = 0;
    while i < content.len()
        invariant
            i <= content@.len(),
            f == (|p: ToolResultContent| tool_result_part_tokens(p)),
            sum == capped(total(content@.subrange(0, i as int), f)),
        decreases content@.len() - i,
    {
        proof {
            lemma_total_step(content@, i as int, f);
        }
        let part = match &content[i] {
            ToolResultContent::Text(t) => estimate_tokens(t.as_str()),
            ToolResultContent::Image(_) => IMAGE_TOKENS,
        };
        assert(part == f(content@[i as int]));
        sum = sum.saturating_add(part);
        i = i + 1;
    }
    assert(content@.subrange(0, i as int) =~= content@);
    sum
}

fn estimate_user_content_tokens(content: &UserContent) -> (r: usize)
    ensures
        r == capped(user_part_tokens(*content)),
{
    match content {
        UserContent::Text(t) => estimate_tokens(t.as_str()),
        UserContent::ToolResult { id, content } => {
            estimate_tokens(id.as_str()).saturating_add(estimate_tool_result_tokens(content))
        },
        UserContent::Image(_) => IMAGE_TOKENS,
        UserContent::Audio(_) => MEDIA_TOKENS,
        UserContent::Video(_) => MEDIA_TOKENS,
        UserContent::Document(d) => estimate_tokens(d.as_str()),
    }
}

fn estimate_fragments_tokens(fragments: &Vec<String>) -> (r: usize)
    ensures
        r == capped(fragments_tokens(fragments@)),
{
    let ghost f = |s: String| text_tokens(s@);
    let mut sum: usize = 0;
    let mut i: usize = 0;
    while i < fragments.len()
        invariant
            i <= fragments@.len(),
            f == (|s: String| text_tokens(s@)),
            sum == capped(total(fragments@.subrange(0, i as int), f)),
        decreases fragments@.len() - i,
    {
        proof {
            lemma_total_step(fragments@, i as int, f);
        }
        sum = sum.saturating_add(estimate_tokens(fragments[i].as_str()));
        i = i + 1;
    }
    assert(fragments@.subrange(0, i as int) =~= fragments@);
    sum
}

fn estimate_assistant_content_tokens(content: &AssistantContent) -> (r: usize)
    ensures
        r == capped(assistant_part_tokens(*content)),
{
    match content {
        AssistantContent::Text(t) => estimate_tokens(t.as_str()),
        AssistantContent::ToolCall { name, arguments } => {
            estimate_tokens(name.as_str()).saturating_add(estimate_tokens(arguments.as_str()))
        },
        AssistantContent::Reasoning(r) => estimate_fragments_tokens(r),
        AssistantContent::Image(_) => IMAGE_TOKENS,
    }
}

/// Estimate the number of tokens of one message: the estimates of its
/// parts plus a fixed overhead of 4 tokens (`usize::MAX` where that does
/// not fit).
pub fn estimate_message_tokens(message: &Message) -> (r: usize)
    ensures
        r == capped(message_tokens(*message)),
{
    let mut sum: usize = 0;
    match message {
        Message::User { content } => {
            let ghost f = |c: UserContent| user_part_tokens(c);
            let mut i: usize = 0;
            while i < content.len()
                invariant
                    i <= content@.len(),
                    f == (|c: UserContent| user_part_tokens(c)),
                    sum == capped(total(content@.subrange(0, i as int), f)),
                decreases content@.len() - i,
            {
                proof {
                    lemma_total_step(content@, i as int, f);
                }
                sum = sum.saturating_add(estimate_user_content_tokens(&content[i]));
                i = i + 1;
            }
            assert(content@.subrange(0, i as int) =~= content@);
        },
        Message::Assistant { content } => {
            let ghost f = |c: AssistantContent| assistant_part_tokens(c);
            let mut i: usize = 0;
            while i < content.len()
                invariant
                    i <= content@.len(),
                    f == (|c: AssistantContent| assistant_part_tokens(c)),
                    sum == capped(total(content@.subrange(0, i as int), f)),
                decreases content@.len() - i,
            {
                proof {
                    lemma_total_step(content@, i as int, f);
                }
                sum = sum.saturating_add(estimate_assistant_content_tokens(&content[i]));
                i = i + 1;
            }
            assert(content@.subrange(0, i as int) =~= content@);
        },
    }
    sum.saturating_add(MESSAGE_OVERHEAD)
}

/// The estimate of the messages `lo..hi` of `h` (`usize::MAX` where that
/// does not fit).
pub(crate) fn estimate_range_tokens(h: &[Message], lo: usize, hi: usize) -> (r: usize)
    requires
        lo <= hi <= h@.len(),
    ensures
        r == capped(messages_tokens(h@.subrange(lo as int, hi as int))),
{
    let ghost f = |m: Message| message_tokens(m);
    let ghost part = h@.subrange(lo as int, hi as int);
    let mut sum: usize = 0;
    let mut i: usize = lo;
    while i < hi
        invariant
            lo <= i <= hi <= h@.len(),
            part == h@.subrange(lo as int, hi as int),
            f == (|m: Message| message_tokens(m)),
            sum == capped(total(part.subrange(0, i - lo), f)),
        decreases hi - i,
    {
        proof {
            lemma_total_step(part, i - lo, f);
        }
        sum = sum.saturating_add(estimate_message_tokens(&h[i]));
        i = i + 1;
    }
    assert(part.subrange(0, i - lo) =~= part);
    sum
}

/// Estimate the number of tokens of a history: the sum of the estimates
/// of its messages (`usize::MAX` where that does not fit).
pub fn estimate_messages_tokens(messages: &[Message]) -> (r: usize)
    ensures
        r == capped(messages_tokens(messages@)),
{
    assert(messages@.subrange(0, messages@.len() as int) =~= messages@);
    estimate_range_tokens(messages, 0, messages.len())
}

/// The share of `context_window` that `total` tokens fill, in whole
/// percent rounded down; 0 for an empty window, and at most `u32::MAX`.
pub open spec fn usage_percent_of(total: nat, context_window: nat) -> nat {
    if context_window == 0 {
        0
    } else if total * 100 / context_window > u32::MAX {
        u32::MAX as nat
    } else {
        total * 100 / context_window
    }
}

/// A snapshot of how much of a model's context window a request would use.
#[derive(Clone, Debug)]
pub struct ContextEstimate {
    /// Tokens of the system prompt.
    pub system_prompt_tokens: usize,
    /// Tokens of the serialized tool definitions.
    pub tool_definitions_tokens: usize,
    /// Tokens of the message history.
    pub messages_tokens: usize,
    /// The sum of the three above (`usize::MAX` where that does not fit).
    pub total_tokens: usize,
    /// The model's capacity, in tokens.
    pub context_window: u64,
    /// `total_tokens` as a percentage of `context_window`, rounded down.
    pub usage_percent: u32,
}

impl ContextEstimate {
    /// Estimate the usage of a request made of a system prompt, the text of
    /// its tool definitions and a message history.
    pub fn new(
        system_prompt: &str,
        tool_definitions_json: &str,
        messages: &[Message],
        context_window: u64,
    ) -> (r: ContextEstimate)
        ensures
            r.system_prompt_tokens == text_tokens(system_prompt@),
            r.tool_definitions_tokens == text_tokens(tool_definitions_json@),
            r.messages_tokens == capped(messages_tokens(messages@)),
            r.total_tokens == capped(
                (r.system_prompt_tokens + r.tool_definitions_tokens + r.messages_tokens) as nat,
            ),
            r.context_window == context_window,
            r.usage_percent == usage_percent_of(r.total_tokens as nat, context_window as nat),
    {
        let system_prompt_tokens = estimate_tokens(system_prompt);
        let tool_definitions_tokens = estimate_tokens(tool_definitions_json);
        let messages_tokens = estimate_messages_tokens(messages);
        let total_tokens = system_prompt_tokens.saturating_add(tool_definitions_tokens).saturating_add(
            messages_tokens,
        );
        let usage_percent: u32 = if context_window > 0 {
            let percent: u128 = (total_tokens as u128 * 100) / (context_window as u128);
            if percent > u32::MAX as u128 {
                u32::MAX
            } else {
                percent as u32
            }
        } else {
            0
        };
        ContextEstimate {
            system_prompt_tokens,
            tool_definitions_tokens,
            messages_tokens,
            total_tokens,
            context_window,
            usage_percent,
        }
    }

    /// Whether usage has reached `threshold_percent` percent of the window.
    pub fn needs_compression(&self, threshold_percent: u32) -> (r: bool)
        ensures
            r == (self.usage_percent >= threshold_percent),
    {
        self.usage_percent >= threshold_percent
    }

    /// The number of tokens that `threshold_percent` percent of the window
    /// holds, rounded down.
    pub fn threshold_tokens(&self, threshold_percent: u32) -> (r: u64)
        requires
            self.context_window * threshold_percent / 100 <= u64::MAX,
        ensures
            r == self.context_window * threshold_percent / 100,
    {
        let product: u128 = self.context_window as u128 * threshold_percent as u128;
        (product / 100) as u64
    }
}

} // verus!
