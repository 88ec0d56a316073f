//! Drop-oldest compression: keep the longest suffix that fits.
use vstd::prelude::*;

use crate::estimator::{
    estimate_message_tokens, estimate_messages_tokens, estimate_range_tokens,
    lemma_messages_tokens_concat, lemma_messages_tokens_single, messages_tokens,
};
use crate::message::Message;
use crate::traits::{
    first_fit, lemma_drops_nothing, lemma_drops_run, CompressionError, ContextCompressor,
};

verus! {

/// The messages `lo..end` of `h` are message `lo` followed by `lo + 1..end`.
pub proof fn lemma_range_tokens_step(h: Seq<Message>, lo: int, end: int)
    requires
        0 <= lo < end <= h.len(),
    ensures
        messages_tokens(h.subrange(lo, end)) == crate::estimator::message_tokens(h[lo])
            + messages_tokens(h.subrange(lo + 1, end)),
{
    lemma_messages_tokens_concat(seq![h[lo]], h.subrange(lo + 1, end));
    assert(seq![h[lo]] + h.subrange(lo + 1, end) =~= h.subrange(lo, end));
    lemma_messages_tokens_single(h[lo]);
}

/// The messages of a range of `h` estimate no more than all of `h`.
pub proof fn lemma_range_tokens_le(h: Seq<Message>, lo: int, hi: int)
    requires
        0 <= lo <= hi <= h.len(),
    ensures
        messages_tokens(h.subrange(lo, hi)) <= messages_tokens(h),
{
    lemma_messages_tokens_concat(h.subrange(0, lo), h.subrange(lo, hi));
    lemma_messages_tokens_concat(h.subrange(0, lo) + h.subrange(lo, hi), h.subrange(hi, h.len() as int));
    assert(h.subrange(0, lo) + h.subrange(lo, hi) + h.subrange(hi, h.len() as int) =~= h);
}

/// Find `first_fit(h, budget, lo, bound, end)` by walking the start of the
/// range forward and taking each passed message off the running estimate.
pub(crate) fn find_first_fit(h: &[Message], budget: usize, lo: usize, bound: usize, end: usize) -> (r: usize)
    requires
        lo <= bound <= end <= h@.len(),
        messages_tokens(h@) <= usize::MAX,
    ensures
        r == first_fit(h@, budget as nat, lo as int, bound as int, end as int),
        lo <= r <= bound,
{
    proof {
        lemma_range_tokens_le(h@, lo as int, end as int);
    }
    let mut suffix = estimate_range_tokens(h, lo, end);
    let mut i = lo;
    while i < bound
        invariant
            lo <= i <= bound <= end <= h@.len(),
            messages_tokens(h@) <= usize::MAX,
            suffix == messages_tokens(h@.subrange(i as int, end as int)),
            first_fit(h@, budget as nat, lo as int, bound as int, end as int) == first_fit(
                h@,
                budget as nat,
                i as int,
                bound as int,
                end as int,
            ),
        decreases bound - i,
    {
        if suffix <= budget {
            return i;
        }
        proof {
            lemma_range_tokens_step(h@, i as int, end as int);
            lemma_range_tokens_le(h@, i as int, end as int);
            lemma_range_tokens_le(h@, i as int, end as int);
        }
        let first = estimate_message_tokens(&h[i]);
        suffix = suffix - first;
        i = i + 1;
    }
    i
}

/// Drops the oldest messages until the rest fits, always keeping the
/// `min_preserve` newest ones.
#[derive(Clone, Copy, Debug)]
pub struct TruncationCompressor {
    /// How many of the newest messages are kept whatever the budget.
    pub min_preserve: usize,
}

/// What truncation keeps of `h` under `max_tokens`: all of it if it fits,
/// else the longest suffix that fits, but never fewer than `min_preserve`
/// messages (nor more than there are).
pub open spec fn truncated(h: Seq<Message>, max_tokens: nat, min_preserve: nat) -> Seq<Message> {
    if h.len() == 0 || messages_tokens(h) <= max_tokens {
        h
    } else {
        let bound = if h.len() >= min_preserve { h.len() - min_preserve } else { 0 };
        h.subrange(first_fit(h, max_tokens, 0, bound, h.len() as int), h.len() as int)
    }
}

/// `first_fit` stays within `lo..=bound`.
pub proof fn lemma_first_fit_bounds(h: Seq<Message>, budget: nat, lo: int, bound: int, end: int)
    requires
        lo <= bound,
    ensures
        lo <= first_fit(h, budget, lo, bound, end) <= bound,
    decreases bound - lo,
{
    if lo < bound {
        lemma_first_fit_bounds(h, budget, lo + 1, bound, end);
    }
}

/// Truncation keeps a suffix of the history, at least `min_preserve`
/// messages long (or the whole history, where it is shorter).
pub proof fn lemma_truncation_keeps_suffix(h: Seq<Message>, max_tokens: nat, min_preserve: nat)
    ensures
        ({
            let out = truncated(h, max_tokens, min_preserve);
            &&& (if min_preserve <= h.len() { min_preserve } else { h.len() }) <= out.len()
                <= h.len()
            &&& out == h.subrange(h.len() - out.len(), h.len() as int)
        }),
{
    let bound = if h.len() >= min_preserve { h.len() - min_preserve } else { 0 };
    lemma_first_fit_bounds(h, max_tokens, 0, bound, h.len() as int);
    assert(h.subrange(0, h.len() as int) =~= h);
}

impl TruncationCompressor {
    /// A compressor that keeps at least the newest message.
    pub fn new() -> (r: TruncationCompressor)
        ensures
            r.min_preserve == 1,
    {
        TruncationCompressor { min_preserve: 1 }
    }

    /// Keep at least `count` of the newest messages.
    pub fn with_min_preserve(self, count: usize) -> (r: TruncationCompressor)
        ensures
            r.min_preserve == count,
    {
        TruncationCompressor { min_preserve: count }
    }
}

impl ContextCompressor for TruncationCompressor {
    fn compress(&self, messages: Vec<Message>, max_tokens: usize) -> (r: Result<
        Vec<Message>,
        CompressionError,
    >)
        ensures
            r is Ok,
            r->Ok_0@ == truncated(messages@, max_tokens as nat, self.min_preserve as nat),
    {
        let ghost h = messages@;
        proof {
            lemma_drops_nothing(h);
        }
        if messages.len() == 0 {
            return Ok(messages);
        }
        if estimate_messages_tokens(messages.as_slice()) <= max_tokens {
            return Ok(messages);
        }
        let n = messages.len();
        let bound = if n >= self.min_preserve { n - self.min_preserve } else { 0 };
        let start = find_first_fit(messages.as_slice(), max_tokens, 0, bound, n);
        let mut messages = messages;
        let kept = messages.split_off(start);
        proof {
            lemma_drops_run(h, 0, start as int);
            assert(h.subrange(0, 0) + h.subrange(start as int, n as int) =~= kept@);
        }
        Ok(kept)
    }

    fn estimate_tokens(&self, messages: &[Message]) -> (r: usize) {
        estimate_messages_tokens(messages)
    }
}

} // verus!
