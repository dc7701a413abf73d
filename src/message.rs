//! A status message that shows for a while after it was posted.

use vstd::prelude::*;
use std::time::{Duration, Instant};

verus! {

#[verifier::external_type_specification]
#[verifier::external_body]
pub struct ExInstant(Instant);

/// Relies on `Instant::now`: the current instant of the monotonic clock.
#[verifier::external_body]
fn instant_now() -> (r: Instant) {
    Instant::now()
}

/// Relies on `Instant::elapsed`: the time that has passed since `t`.
#[verifier::external_body]
fn elapsed_since(t: &Instant) -> (r: Duration) {
    t.elapsed()
}

/// Relies on `Duration::as_millis`: the whole milliseconds in `d`.
#[verifier::external_body]
fn whole_millis(d: &Duration) -> (r: u128) {
    d.as_millis()
}

/// How long a message shows when no other time is given, in milliseconds.
pub const DEFAULT_TIMEOUT_MS: u64 = 5000;

#[derive(Debug)]
pub struct Message {
    pub text: String,
    /// How long the message shows, in milliseconds.
    pub timeout_ms: u64,
    /// When the message was posted.
    pub time: Instant,
}

impl Message {
    pub fn new(text: String) -> (r: Message)
        ensures
            r.text@ == text@,
            r.timeout_ms == DEFAULT_TIMEOUT_MS,
    {
        Message::with_timeout(text, DEFAULT_TIMEOUT_MS)
    }

    pub fn with_timeout(text: String, timeout_ms: u64) -> (r: Message)
        ensures
            r.text@ == text@,
            r.timeout_ms == timeout_ms,
    {
        Message { text, timeout_ms, time: instant_now() }
    }

    /// The text while fewer than `timeout_ms` milliseconds have passed since
    /// the message was posted, given that `elapsed_ms` have passed.
    pub fn show_after(&self, elapsed_ms: u128) -> (r: Option<&str>)
        ensures
            elapsed_ms < self.timeout_ms ==> (r matches Some(t) && t@ == self.text@),
            elapsed_ms >= self.timeout_ms ==> r is None,
    {
        if elapsed_ms < self.timeout_ms as u128 {
            Some(self.text.as_str())
        } else {
            None
        }
    }

    /// The text, if the message has not yet expired.
    pub fn show(&self) -> (r: Option<&str>)
        ensures
            r matches Some(t) ==> t@ == self.text@,
    {
        let e = elapsed_since(&self.time);
        self.show_after(whole_millis(&e))
    }
}

} // verus!
