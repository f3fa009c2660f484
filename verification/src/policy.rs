//! Turn-level retry policy for provider errors.
//!
//! Single requests are retried by the HTTP layer. This policy is for the errors
//! that outlive those retries, and for empty responses.
//!
//! Retrying authentication, context-length or credits errors is pointless or
//! harmful: they are terminal and pass through untouched.
use std::time::Duration;

use vstd::prelude::*;

use crate::json;
use crate::json::JsonValue;
use crate::message::MessageErrorKind;
use crate::text;

verus! {

pub const DEFAULT_MAX_RETRIES: u32 = 3;

pub const DEFAULT_RETRY_INTERVAL_SECONDS: u64 = 5;

/// Configuration key of the number of retries.
pub const GOOSE_PROVIDER_ERROR_RETRIES: &'static str = "GOOSE_PROVIDER_ERROR_RETRIES";

/// Configuration key of the pause before each retry.
pub const GOOSE_PROVIDER_RETRY_INTERVAL_SECONDS: &'static str =
    "GOOSE_PROVIDER_RETRY_INTERVAL_SECONDS";

/// Metadata key on the kickoff message where turn-level provider retry attempts are
/// counted. A retry resets the conversation to the kickoff, so the kickoff message
/// is the only place where a counter survives.
pub const PROVIDER_RETRY_ATTEMPTS_META: &'static str = "provider_retry_attempts";

/// How often one turn may be retried.
#[derive(Debug, Clone, Copy, PartialEq, Eq, Structural)]
pub enum RetryLimit {
    Finite(u32),
    Infinite,
}

/// When to retry a failed turn, and after how long a pause.
#[derive(Debug, Clone, Copy, PartialEq, Eq)]
pub struct ProviderRetryPolicy {
    pub max_retries: RetryLimit,
    pub interval: Duration,
}

/// What to do about a provider error.
#[derive(Debug, Clone, Copy, PartialEq, Eq, Structural)]
pub enum RetryDecision {
    Retry,
    Terminal,
}

/// The duration of `secs` whole seconds.
pub uninterp spec fn seconds(secs: u64) -> Duration;

/// `Duration::from_secs` gives the duration of `secs` whole seconds, a value that
/// `secs` alone determines.
pub assume_specification[ Duration::from_secs ](secs: u64) -> (res: Duration)
    ensures
        res == seconds(secs),
;

/// The limit that a configured text stands for: `-1` or `infinite` in any case means
/// no limit; a non-negative integer, of any size, is a finite limit; anything else is
/// the default. Whitespace around the text does not count. An integer above `u32::MAX`
/// is the largest finite limit there is.
pub open spec fn retries_of(raw: Seq<char>) -> RetryLimit {
    let word = text::trimmed(raw);
    if text::same_ignoring_ascii_case(word, "infinite"@) {
        RetryLimit::Infinite
    } else {
        match text::signed_number(word) {
            Some(v) => if v == -1 {
                RetryLimit::Infinite
            } else if v > u32::MAX {
                RetryLimit::Finite(u32::MAX)
            } else if 0 <= v {
                RetryLimit::Finite(v as u32)
            } else {
                RetryLimit::Finite(DEFAULT_MAX_RETRIES)
            },
            None => RetryLimit::Finite(DEFAULT_MAX_RETRIES),
        }
    }
}

/// The number of seconds that a configured text stands for, if it is a non-negative
/// integer that fits in a `u64`. Whitespace around the text does not count.
pub open spec fn interval_seconds_of(raw: Seq<char>) -> Option<u64> {
    match text::unsigned_number(text::trimmed(raw)) {
        Some(v) => if v <= u64::MAX {
            Some(v as u64)
        } else {
            None
        },
        None => None,
    }
}

/// The text of a configured value: a string as it is, a number as it prints.
pub open spec fn config_text(value: Option<json::JsonView>) -> Option<Seq<char>> {
    match value {
        Some(json::JsonView::Text(s)) => Some(s),
        Some(json::JsonView::Integer(n)) => Some(text::integer_text(n)),
        Some(json::JsonView::Fraction(s)) => Some(s),
        _ => None,
    }
}

/// The limit that a configured value stands for; the default when there is no value
/// or it is neither a string nor a number.
pub open spec fn configured_retries(value: Option<json::JsonView>) -> RetryLimit {
    match config_text(value) {
        Some(raw) => retries_of(raw),
        None => RetryLimit::Finite(DEFAULT_MAX_RETRIES),
    }
}

/// The seconds that a configured value stands for; the default when it stands for
/// none.
pub open spec fn configured_seconds(value: Option<json::JsonView>) -> u64 {
    match config_text(value) {
        Some(raw) => match interval_seconds_of(raw) {
            Some(secs) => secs,
            None => DEFAULT_RETRY_INTERVAL_SECONDS,
        },
        None => DEFAULT_RETRY_INTERVAL_SECONDS,
    }
}

/// The policy that the values configured under [`GOOSE_PROVIDER_ERROR_RETRIES`] and
/// [`GOOSE_PROVIDER_RETRY_INTERVAL_SECONDS`] stand for.
pub fn load_policy(retries: Option<JsonValue>, interval: Option<JsonValue>) -> (policy:
    ProviderRetryPolicy)
    ensures
        policy.max_retries == configured_retries(json::view_of(retries)),
        policy.interval == seconds(configured_seconds(json::view_of(interval))),
{
    let max_retries = match config_value_as_string(retries) {
        Some(raw) => parse_retries(raw.as_str()),
        None => RetryLimit::Finite(DEFAULT_MAX_RETRIES),
    };
    let interval_seconds: u64 = match config_value_as_string(interval) {
        Some(raw) => match parse_interval_seconds(raw.as_str()) {
            Some(secs) => secs,
            None => DEFAULT_RETRY_INTERVAL_SECONDS,
        },
        None => DEFAULT_RETRY_INTERVAL_SECONDS,
    };
    ProviderRetryPolicy { max_retries, interval: Duration::from_secs(interval_seconds) }
}

/// The text of a configured value. A value that looks like a number, such as `-1`,
/// is configured as a JSON number and not as a string; it is read in the form in
/// which it prints.
pub fn config_value_as_string(value: Option<JsonValue>) -> (res: Option<String>)
    ensures
        config_text(json::view_of(value)) == match res {
            Some(s) => Some(s@),
            None => None,
        },
{
    match value {
        Some(JsonValue::Text(s)) => Some(s),
        Some(JsonValue::Unsigned(n)) => Some(json::number_text(n as i128)),
        Some(JsonValue::Signed(n)) => Some(json::number_text(n as i128)),
        Some(JsonValue::Fraction(s)) => Some(s),
        _ => None,
    }
}

/// `-1` or `infinite` (case-insensitive) means unlimited retries; any non-negative
/// integer is a finite limit, `u32::MAX` at most; anything else falls back to the
/// default.
pub fn parse_retries(raw: &str) -> (limit: RetryLimit)
    ensures
        limit == retries_of(raw@),
{
    let trimmed = text::trim(raw);
    if text::eq_ignore_ascii_case(trimmed, "infinite") {
        return RetryLimit::Infinite;
    }
    match text::parse_i64(trimmed) {
        Some(count) => if count == -1 {
            RetryLimit::Infinite
        } else if count > u32::MAX as i64 {
            RetryLimit::Finite(u32::MAX)
        } else if count >= 0 {
            RetryLimit::Finite(count as u32)
        } else {
            RetryLimit::Finite(DEFAULT_MAX_RETRIES)
        },
        None => if text::is_unsigned_numeral(trimmed) {
            RetryLimit::Finite(u32::MAX)
        } else {
            RetryLimit::Finite(DEFAULT_MAX_RETRIES)
        },
    }
}

/// A non-negative integer is a number of seconds; anything else is none.
pub fn parse_interval_seconds(raw: &str) -> (secs: Option<u64>)
    ensures
        secs == interval_seconds_of(raw@),
{
    text::parse_u64(text::trim(raw))
}

/// The decision on an error of kind `kind`.
pub open spec fn decision_of(kind: MessageErrorKind) -> RetryDecision {
    if kind is Other {
        RetryDecision::Retry
    } else {
        RetryDecision::Terminal
    }
}

/// [`MessageErrorKind::Other`] covers network errors, server errors and rate limits;
/// everything else is a dead end that retrying cannot fix.
pub fn classify_error(kind: MessageErrorKind) -> (decision: RetryDecision)
    ensures
        decision == decision_of(kind),
{
    match kind {
        MessageErrorKind::Other => RetryDecision::Retry,
        MessageErrorKind::Authentication
        | MessageErrorKind::ContextLengthExceeded
        | MessageErrorKind::CreditsExhausted => RetryDecision::Terminal,
    }
}

} // verus!
