//! What every compression strategy promises, and the error type they share.
use vstd::prelude::*;

use crate::estimator::{capped, messages_tokens};
use crate::message::Message;

verus! {

/// Why a compression did not produce a history.
#[derive(Clone, Debug, PartialEq, Eq)]
pub enum CompressionError {
    /// Estimating tokens failed.
    EstimationFailed(String),
    /// The history is malformed.
    InvalidStructure(String),
    /// A strategy could not compress; the text says why.
    CompressionFailed(String),
}

/// The human-readable text of an error.
pub open spec fn error_text(e: CompressionError) -> Seq<char> {
    match e {
        CompressionError::EstimationFailed(s) => "Token estimation failed: "@ + s@,
        CompressionError::InvalidStructure(s) => "Invalid message structure: "@ + s@,
        CompressionError::CompressionFailed(s) => "Compression failed: "@ + s@,
    }
}

impl CompressionError {
    /// The human-readable text of this error.
    pub fn message(&self) -> (r: String)
        ensures
            r@ == error_text(*self),
    {
        let (head, detail) = match self {
            CompressionError::EstimationFailed(s) => ("Token estimation failed: ", s),
            CompressionError::InvalidStructure(s) => ("Invalid message structure: ", s),
            CompressionError::CompressionFailed(s) => ("Compression failed: ", s),
        };
        let mut r = String::from_str(head);
        r.append(detail.as_str());
        r
    }
}

/// `out` is `h` with one contiguous run of messages removed (possibly an
/// empty run): the rest is kept, unchanged and in its order.
pub open spec fn drops_one_run(out: Seq<Message>, h: Seq<Message>) -> bool {
    exists|a: int, b: int|
        0 <= a <= b <= h.len() && out == h.subrange(0, a) + h.subrange(b, h.len() as int)
}

/// Taking out the empty run leaves the history as it is.
pub proof fn lemma_drops_nothing(h: Seq<Message>)
    ensures
        drops_one_run(h, h),
{
    assert(h.subrange(0, 0) + h.subrange(0, h.len() as int) =~= h);
}

/// Keeping `h[0..a]` and `h[b..]` takes out one run.
pub proof fn lemma_drops_run(h: Seq<Message>, a: int, b: int)
    requires
        0 <= a <= b <= h.len(),
    ensures
        drops_one_run(h.subrange(0, a) + h.subrange(b, h.len() as int), h),
{
}

/// Every message of `out` is a message of `h`, and messages of `out` stand
/// in the order of `h`: `idx` maps each position of `out` to a position of
/// `h`, strictly increasing.
pub open spec fn keeps_order_with(out: Seq<Message>, h: Seq<Message>, idx: Seq<int>) -> bool {
    &&& idx.len() == out.len()
    &&& forall|j: int| 0 <= j < out.len() ==> 0 <= #[trigger] idx[j] < h.len() && out[j] == h[idx[j]]
    &&& forall|j: int, k: int| 0 <= j < k < out.len() ==> #[trigger] idx[j] < #[trigger] idx[k]
}

/// `out` is a subsequence of `h`.
pub open spec fn keeps_order(out: Seq<Message>, h: Seq<Message>) -> bool {
    exists|idx: Seq<int>| keeps_order_with(out, h, idx)
}

/// Taking out one run keeps the order of what remains: every compressed
/// history is a subsequence of the history it came from.
pub proof fn lemma_drops_run_keeps_order(out: Seq<Message>, h: Seq<Message>)
    requires
        drops_one_run(out, h),
    ensures
        keeps_order(out, h),
{
    let (a, b) = choose|a: int, b: int|
        0 <= a <= b <= h.len() && out == h.subrange(0, a) + h.subrange(b, h.len() as int);
    let idx = Seq::new(out.len(), |j: int| if j < a { j } else { j + (b - a) });
    assert(keeps_order_with(out, h, idx));
}

/// The first position `i` from `lo` below `bound` at which the messages
/// `i..end` of `h` fit in `budget`, or `bound` where none does.
pub open spec fn first_fit(h: Seq<Message>, budget: nat, lo: int, bound: int, end: int) -> int
    decreases bound - lo,
{
    if lo >= bound {
        lo
    } else if messages_tokens(h.subrange(lo, end)) <= budget {
        lo
    } else {
        first_fit(h, budget, lo + 1, bound, end)
    }
}

/// A strategy that shrinks a history towards a token budget.
pub trait ContextCompressor {
    /// Compress `messages` towards `max_tokens`. A history that already
    /// fits comes back unchanged; otherwise what comes back is the history
    /// with one run of messages taken out, the rest in its order.
    fn compress(&self, messages: Vec<Message>, max_tokens: usize) -> (r: Result<
        Vec<Message>,
        CompressionError,
    >)
        requires
            messages_tokens(messages@) <= usize::MAX,
        ensures
            messages_tokens(messages@) <= max_tokens ==> r is Ok && r->Ok_0@ == messages@,
            r is Ok ==> drops_one_run(r->Ok_0@, messages@),
    ;

    /// The estimated tokens of `messages` (`usize::MAX` where that does not
    /// fit).
    fn estimate_tokens(&self, messages: &[Message]) -> (r: usize)
        ensures
            r == capped(messages_tokens(messages@)),
    ;

    /// Whether `messages` exceed `max_tokens`.
    fn needs_compression(&self, messages: &[Message], max_tokens: usize) -> (r: bool)
        requires
            messages_tokens(messages@) <= usize::MAX,
        ensures
            r == (messages_tokens(messages@) > max_tokens),
    {
        self.estimate_tokens(messages) > max_tokens
    }
}

} // verus!
