//! A status message shown briefly and then reverted.

use vstd::prelude::*;

verus! {

/// How long a transient message stays up, in milliseconds.
pub const TRANSIENT_MESSAGE_MS: u64 = 3000;

/// A temporary status line: the text shown now, the text to restore, and
/// the clock reading at which it lapses.
#[derive(Clone)]
pub struct TransientMessage {
    pub current: String,
    pub expires_at: u64,
    pub original: String,
}

impl TransientMessage {
    /// Starts a transient message from the clock reading `now_ms`; it
    /// lapses after `TRANSIENT_MESSAGE_MS`.
    pub fn new(current: String, original: String, now_ms: u64) -> (r: TransientMessage)
        ensures
            r.current == current,
            r.original == original,
            r.expires_at == if now_ms + TRANSIENT_MESSAGE_MS <= u64::MAX {
                (now_ms + TRANSIENT_MESSAGE_MS) as u64
            } else {
                u64::MAX
            },
    {
        let expires_at: u64 = if now_ms > u64::MAX - TRANSIENT_MESSAGE_MS {
            u64::MAX
        } else {
            now_ms + TRANSIENT_MESSAGE_MS
        };
        TransientMessage { current, expires_at, original }
    }

    /// The text currently shown.
    pub fn current(&self) -> (r: &str)
        ensures
            r@ == self.current@,
    {
        self.current.as_str()
    }

    /// Whether the message has lapsed at the clock reading `now_ms`.
    pub fn is_expired(&self, now_ms: u64) -> (r: bool)
        ensures
            r == (now_ms >= self.expires_at),
    {
        now_ms >= self.expires_at
    }

    /// The text to restore once the message lapses.
    pub fn original(&self) -> (r: &str)
        ensures
            r@ == self.original@,
    {
        self.original.as_str()
    }
}

} // verus!
