//! Context compression for conversational agents: token estimation over a
//! message history and strategies that shrink the history to a token budget.
use vstd::prelude::*;

pub mod anthropic;
pub mod estimator;
pub mod message;
pub mod traits;
pub mod sliding_window;
pub mod summarizing;
pub mod text;
pub mod truncation;

pub use estimator::{ContextEstimate, estimate_message_tokens, estimate_messages_tokens, estimate_tokens};
pub use message::{AssistantContent, Message, ToolResultContent, UserContent};
pub use traits::{CompressionError, ContextCompressor};
pub use sliding_window::SlidingWindowCompressor;
pub use summarizing::SummarizingCompressor;
pub use truncation::TruncationCompressor;

verus! {

use crate::estimator::messages_tokens;
use crate::sliding_window::windowed;
use crate::summarizing::{calls_summarizer, head_and_tail};
use crate::truncation::truncated;

/// A history that fits the budget is kept as it is, whatever the strategy
/// and its settings: truncation, the sliding window, and summarization,
/// which then does not ask its summarizer.
pub proof fn lemma_fitting_history_is_kept(h: Seq<Message>, max_tokens: nat, first: nat, last: nat)
    requires
        messages_tokens(h) <= max_tokens,
    ensures
        truncated(h, max_tokens, last) == h,
        windowed(h, max_tokens, first, last) == h,
        head_and_tail(h, max_tokens, first, last) == h,
        !calls_summarizer(h, max_tokens, first, last),
{
}

} // verus!
