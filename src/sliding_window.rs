//! Sliding-window compression: keep a head and a tail, trim the middle.
use vstd::prelude::*;

use crate::estimator::{
    estimate_messages_tokens, estimate_range_tokens, lemma_messages_tokens_concat,
    messages_tokens,
};
use crate::message::Message;
use crate::traits::{
    first_fit, lemma_drops_nothing, lemma_drops_run, CompressionError, ContextCompressor,
};
use crate::truncation::{find_first_fit, lemma_first_fit_bounds};

verus! {

/// Keeps the first `preserve_first` and the last `min_recent` messages, and
/// as many of the newest messages between them as the budget allows.
#[derive(Clone, Copy, Debug)]
pub struct SlidingWindowCompressor {
    /// How many of the oldest messages are kept (a system prompt, say).
    pub preserve_first: usize,
    /// How many of the newest messages are kept.
    pub min_recent: usize,
}

/// The number of head messages a window keeps of a history of `n`.
pub open spec fn head_len(n: nat, preserve_first: nat) -> nat {
    if preserve_first <= n { preserve_first } else { n }
}

/// The number of tail messages a window keeps of a history of `n`.
pub open spec fn tail_len(n: nat, preserve_first: nat, min_recent: nat) -> nat {
    let rest = (n - head_len(n, preserve_first)) as nat;
    if min_recent <= rest { min_recent } else { rest }
}

/// What the sliding window keeps of `h` under `max_tokens`: all of it if it
/// fits; else the tail alone if head and tail together do not fit; else
/// the head, the longest run of the newest middle messages that fits what
/// head and tail leave of the budget, and the tail.
pub open spec fn windowed(h: Seq<Message>, max_tokens: nat, preserve_first: nat, min_recent: nat) -> Seq<Message> {
    if h.len() == 0 || messages_tokens(h) <= max_tokens {
        h
    } else {
        let n = h.len() as int;
        let s = head_len(h.len(), preserve_first) as int;
        let e = tail_len(h.len(), preserve_first, min_recent) as int;
        let head = h.subrange(0, s);
        let tail = h.subrange(n - e, n);
        let preserved = messages_tokens(head) + messages_tokens(tail);
        if preserved > max_tokens {
            tail
        } else {
            let w = first_fit(h, (max_tokens - preserved) as nat, s, n - e, n - e);
            head + h.subrange(w, n)
        }
    }
}

/// Head, middle and tail together estimate as the whole history.
pub proof fn lemma_three_parts(h: Seq<Message>, s: int, t: int)
    requires
        0 <= s <= t <= h.len(),
    ensures
        messages_tokens(h.subrange(0, s)) + messages_tokens(h.subrange(s, t)) + messages_tokens(
            h.subrange(t, h.len() as int),
        ) == messages_tokens(h),
{
    lemma_messages_tokens_concat(h.subrange(0, s), h.subrange(s, t));
    lemma_messages_tokens_concat(h.subrange(0, s) + h.subrange(s, t), h.subrange(t, h.len() as int));
    assert(h.subrange(0, s) + h.subrange(s, t) + h.subrange(t, h.len() as int) =~= h);
}

/// Where head and tail fit the budget together, the window keeps both whole
/// (the head at its start, the tail at its end); where they do not, it keeps
/// the tail alone.
pub proof fn lemma_window_keeps_ends(h: Seq<Message>, max_tokens: nat, preserve_first: nat, min_recent: nat)
    ensures
        ({
            let out = windowed(h, max_tokens, preserve_first, min_recent);
            let n = h.len() as int;
            let s = head_len(h.len(), preserve_first) as int;
            let e = tail_len(h.len(), preserve_first, min_recent) as int;
            let head = h.subrange(0, s);
            let tail = h.subrange(n - e, n);
            if messages_tokens(head) + messages_tokens(tail) <= max_tokens {
                &&& s + e <= out.len()
                &&& out.subrange(0, s) == head
                &&& out.subrange(out.len() - e, out.len() as int) == tail
            } else {
                out == tail
            }
        }),
{
    let n = h.len() as int;
    let s = head_len(h.len(), preserve_first) as int;
    let e = tail_len(h.len(), preserve_first, min_recent) as int;
    lemma_three_parts(h, s, n - e);
    let preserved = messages_tokens(h.subrange(0, s)) + messages_tokens(h.subrange(n - e, n));
    if h.len() == 0 || messages_tokens(h) <= max_tokens {
        assert(h.subrange(0, s) =~= h.subrange(0, s));
    } else if preserved <= max_tokens {
        let w = first_fit(h, (max_tokens - preserved) as nat, s, n - e, n - e);
        lemma_first_fit_bounds(h, (max_tokens - preserved) as nat, s, n - e, n - e);
        let out = h.subrange(0, s) + h.subrange(w, n);
        assert(out.subrange(0, s) =~= h.subrange(0, s));
        assert(out.subrange(out.len() - e, out.len() as int) =~= h.subrange(n - e, n));
    }
}

impl SlidingWindowCompressor {
    /// A window that keeps no head and the two newest messages.
    pub fn new() -> (r: SlidingWindowCompressor)
        ensures
            r.preserve_first == 0,
            r.min_recent == 2,
    {
        SlidingWindowCompressor { preserve_first: 0, min_recent: 2 }
    }

    /// Keep the `count` oldest messages.
    pub fn with_preserve_first(self, count: usize) -> (r: SlidingWindowCompressor)
        ensures
            r.preserve_first == count,
            r.min_recent == self.min_recent,
    {
        SlidingWindowCompressor { preserve_first: count, ..self }
    }

    /// Keep the `count` newest messages.
    pub fn with_min_recent(self, count: usize) -> (r: SlidingWindowCompressor)
        ensures
            r.preserve_first == self.preserve_first,
            r.min_recent == count,
    {
        SlidingWindowCompressor { min_recent: count, ..self }
    }
}

impl ContextCompressor for SlidingWindowCompressor {
    fn compress(&self, messages: Vec<Message>, max_tokens: usize) -> (r: Result<
        Vec<Message>,
        CompressionError,
    >)
        ensures
            r is Ok,
            r->Ok_0@ == windowed(
                messages@,
                max_tokens as nat,
                self.preserve_first as nat,
                self.min_recent as nat,
            ),
    {
        let ghost h = messages@;
        proof {
            lemma_drops_nothing(h);
        }
        if messages.len() == 0 {
            return Ok(messages);
        }
        if estimate_messages_tokens(messages.as_slice()) <= max_tokens {
            return Ok(messages);
        }
        let n = messages.len();
        let s = if self.preserve_first <= n { self.preserve_first } else { n };
        let e = if self.min_recent <= n - s { self.min_recent } else { n - s };
        let head_tokens = estimate_range_tokens(messages.as_slice(), 0, s);
        let tail_tokens = estimate_range_tokens(messages.as_slice(), n - e, n);
        proof {
            lemma_three_parts(h, s as int, (n - e) as int);
        }
        let preserved = head_tokens + tail_tokens;
        let mut messages = messages;
        if preserved > max_tokens {
            let tail = messages.split_off(n - e);
            proof {
                lemma_drops_run(h, 0, (n - e) as int);
                assert(h.subrange(0, 0) + h.subrange((n - e) as int, n as int) =~= tail@);
            }
            return Ok(tail);
        }
        let w = find_first_fit(messages.as_slice(), max_tokens - preserved, s, n - e, n - e);
        let mut rest = messages.split_off(w);
        messages.truncate(s);
        messages.append(&mut rest);
        proof {
            lemma_drops_run(h, s as int, w as int);
            assert(h.subrange(0, s as int) + h.subrange(w as int, n as int) =~= messages@);
        }
        Ok(messages)
    }

    fn estimate_tokens(&self, messages: &[Message]) -> (r: usize) {
        estimate_messages_tokens(messages)
    }
}

} // verus!
