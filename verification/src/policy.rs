//! The decode time budget. Instants are milliseconds on one monotonic clock
//! that the caller reads; the budget starts when a job starts, not when it
//! was queued.
use vstd::prelude::*;

use crate::error::ViewerError;
use crate::model::DecodedRender;
use crate::protocol::CODEC_HELPER_DECODE_DEADLINE_MS;

verus! {

/// The default decode budget: the codec helper's own deadline.
pub const DEFAULT_DECODE_TIMEOUT_MS: u64 = CODEC_HELPER_DECODE_DEADLINE_MS;

#[derive(Clone, Copy, Debug)]
pub struct DecodePolicy {
    pub max_decode_ms: u64,
}

#[derive(Clone, Copy, Debug)]
pub struct DecodeDeadline {
    pub expires_at_ms: u64,
    pub limit_ms: u64,
}

/// When a deadline started at `started_ms` with budget `max_ms` expires; an
/// instant past the clock's range leaves the start itself as the expiry.
pub open spec fn spec_expiry(started_ms: u64, max_ms: u64) -> u64 {
    if started_ms + max_ms <= u64::MAX {
        (started_ms + max_ms) as u64
    } else {
        started_ms
    }
}

impl Default for DecodePolicy {
    fn default() -> (p: Self)
        ensures
            p.max_decode_ms == DEFAULT_DECODE_TIMEOUT_MS,
    {
        DecodePolicy { max_decode_ms: DEFAULT_DECODE_TIMEOUT_MS }
    }
}

impl DecodePolicy {
    pub fn with_max_decode_duration(max_decode_ms: u64) -> (p: Self)
        ensures
            p.max_decode_ms == max_decode_ms,
    {
        DecodePolicy { max_decode_ms }
    }

    /// The deadline of a decode that starts at `started_ms`.
    pub fn deadline_from(self, started_ms: u64) -> (d: DecodeDeadline)
        ensures
            d.expires_at_ms == spec_expiry(started_ms, self.max_decode_ms),
            d.limit_ms == self.max_decode_ms,
    {
        let expires_at_ms = match started_ms.checked_add(self.max_decode_ms) {
            Some(t) => t,
            None => started_ms,
        };
        DecodeDeadline { expires_at_ms, limit_ms: self.max_decode_ms }
    }
}

impl DecodeDeadline {
    /// Expired from the expiry instant on, inclusive.
    pub fn is_expired(self, now_ms: u64) -> (b: bool)
        ensures
            b == (now_ms >= self.expires_at_ms),
    {
        now_ms >= self.expires_at_ms
    }

    pub fn limit_ms(self) -> (l: u64)
        ensures
            l == self.limit_ms,
    {
        self.limit_ms
    }
}

/// A deadline started at `started_ms` has not expired strictly before its
/// budget has elapsed, and has expired once it has.
pub proof fn lemma_deadline_boundary(started_ms: u64, max_ms: u64, now_ms: u64)
    requires
        started_ms + max_ms <= u64::MAX,
    ensures
        (now_ms >= spec_expiry(started_ms, max_ms)) <==> (now_ms >= started_ms + max_ms),
{
}

/// The error of a decode whose budget ran out.
pub open spec fn deadline_error_view(e: ViewerError, limit_ms: u64) -> bool {
    &&& e.code@ == crate::code::DECODE_DEADLINE_EXCEEDED@
    &&& e.message@ == "圖片解碼超過安全期限。"@
    &&& e.parameters_view() == map!["limitMs"@ => limit_ms]
}

/// Before a job enters the decoder: a source that could not be opened fails
/// the job with its own error; a budget already spent fails it with the
/// deadline error; otherwise the source goes to the decoder.
pub fn admit_decode<S>(source: Result<S, ViewerError>, deadline: DecodeDeadline, now_ms: u64) -> (r: Result<S, ViewerError>)
    ensures
        match source {
            Err(_) => r == source,
            Ok(s) => if now_ms >= deadline.expires_at_ms {
                r matches Err(e) && deadline_error_view(e, deadline.limit_ms)
            } else {
                r == Ok::<S, ViewerError>(s)
            },
        },
{
    match source {
        Err(e) => Err(e),
        Ok(s) => {
            if deadline.is_expired(now_ms) {
                Err(ViewerError::deadline_exceeded(deadline.limit_ms()))
            } else {
                Ok(s)
            }
        },
    }
}

/// After the decoder returned: a result that arrives once the budget is spent
/// is replaced by the deadline error, whatever it was.
pub fn settle_decode(result: Result<DecodedRender, ViewerError>, deadline: DecodeDeadline, now_ms: u64) -> (r: Result<DecodedRender, ViewerError>)
    ensures
        if now_ms >= deadline.expires_at_ms {
            r matches Err(e) && deadline_error_view(e, deadline.limit_ms)
        } else {
            r == result
        },
{
    if deadline.is_expired(now_ms) {
        Err(ViewerError::deadline_exceeded(deadline.limit_ms()))
    } else {
        result
    }
}

} // verus!
