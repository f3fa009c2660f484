//! Retries the turn when the provider fails or returns an empty response.
//!
//! The operation sits right before the one that ends a turn on an error, so it only
//! fires where the turn would otherwise end: transient errors and empty responses
//! are retried up to the configured limit, terminal errors fall through unchanged.
//!
//! A retry happens in two steps. [`ProviderErrorRetryOperation::plan`] decides
//! whether one is due; the caller then shows the notification and waits out the
//! interval, unless it is cancelled; [`ProviderErrorRetryOperation::finish`] turns
//! the outcome of the wait into the new conversation.
use std::time::Duration;

use vstd::prelude::*;

use crate::json;
use crate::json::JsonValue;
use crate::message;
use crate::message::{
    messages_since_kickoff, Conversation, KickoffMissing, Message, MessageErrorKind, Role,
};
use crate::policy;
use crate::policy::{classify_error, ProviderRetryPolicy, RetryDecision, RetryLimit};
use crate::text;

verus! {

/// What the agent answers when the model returned nothing.
pub const EMPTY_RESPONSE_MESSAGE: &'static str =
    "The model returned an empty response. Please resend your message to continue.";

/// How the error begins that ends a task whose own retries are used up.
pub const MAX_RETRY_ATTEMPTS_EXCEEDED: &'static str = "Maximum retry attempts (";

/// No [`MessageErrorKind`] stands for a refusal: it surfaces as
/// [`MessageErrorKind::Other`], with this marker in the error text. Refusals are
/// terminal: a retry would resend the same refused conversation.
pub const REFUSAL_MARKER: &'static str = "Provider refused request";

/// `message` is the agent's answer to an empty response.
pub open spec fn empty_response(message: message::MessageView) -> bool {
    &&& message.role == Role::Assistant
    &&& message.error_kind is None
    &&& message.concat_text == EMPTY_RESPONSE_MESSAGE@
}

/// `content` is an error that reports a refusal.
pub open spec fn refusal_error(content: message::ContentView) -> bool {
    content matches message::ContentView::Error(error) && text::contains_text(
        error.message,
        REFUSAL_MARKER@,
    )
}

/// `message` reports a refusal.
pub open spec fn refusal(message: message::MessageView) -> bool {
    exists|i: int| 0 <= i < message.content.len() && refusal_error(#[trigger] message.content[i])
}

/// `content` is the error that ends a task whose own retries are used up.
pub open spec fn exhaustion_error(content: message::ContentView) -> bool {
    content matches message::ContentView::Error(error) && error.kind == MessageErrorKind::Other
        && MAX_RETRY_ATTEMPTS_EXCEEDED@.is_prefix_of(error.message)
}

/// `message` says that the task's own retries are used up.
pub open spec fn exhaustion(message: message::MessageView) -> bool {
    exists|i: int|
        0 <= i < message.content.len() && exhaustion_error(#[trigger] message.content[i])
}

/// Some message of `messages` says that the task's own retries are used up.
pub open spec fn any_exhaustion(messages: Seq<message::MessageView>) -> bool {
    exists|i: int| 0 <= i < messages.len() && exhaustion(#[trigger] messages[i])
}

/// The number of retries that `kickoff` counts: the low 32 bits of its counter, zero
/// when it has none that is a non-negative integer.
pub open spec fn attempts_of(kickoff: message::MessageView) -> u32 {
    match kickoff.retry_attempts {
        Some(value) => match value.as_u64() {
            Some(n) => (n % 0x1_0000_0000) as u32,
            None => 0,
        },
        None => 0,
    }
}

/// The number of the retry after `attempts` of them. The count stays at `u32::MAX`.
pub open spec fn next_attempt(attempts: u32) -> u32 {
    if attempts < u32::MAX {
        (attempts + 1) as u32
    } else {
        u32::MAX
    }
}

/// The turn failed in a way that a retry may mend. `trailing_error` is the kind of
/// the error with which the conversation ends, if it ends with one.
pub open spec fn retryable_failure(
    conversation: Seq<message::MessageView>,
    trailing_error: Option<MessageErrorKind>,
) -> bool {
    match trailing_error {
        Some(kind) => {
            &&& policy::decision_of(kind) == RetryDecision::Retry
            &&& !(conversation.len() > 0 && refusal(conversation.last()))
        },
        None => conversation.len() > 0 && empty_response(conversation.last()),
    }
}

/// `limit` leaves room for a retry after `attempts` of them.
pub open spec fn below_limit(limit: RetryLimit, attempts: u32) -> bool {
    match limit {
        RetryLimit::Finite(most) => attempts < most,
        RetryLimit::Infinite => true,
    }
}

/// The turn that began at position `kickoff` can be retried: the agent would be
/// shown the kickoff, the task's own retries are not used up, and the limit leaves
/// room.
pub open spec fn turn_retryable(
    limit: RetryLimit,
    conversation: Seq<message::MessageView>,
    kickoff: int,
) -> bool {
    &&& conversation[kickoff].agent_visible
    &&& !any_exhaustion(conversation.skip(kickoff))
    &&& below_limit(limit, attempts_of(conversation[kickoff]))
}

/// A retry of the turn that began at position `kickoff` is due.
pub open spec fn retry_due(
    limit: RetryLimit,
    conversation: Seq<message::MessageView>,
    trailing_error: Option<MessageErrorKind>,
    kickoff: int,
) -> bool {
    retryable_failure(conversation, trailing_error) && turn_retryable(limit, conversation, kickoff)
}

/// How a limit is shown.
pub open spec fn limit_text(limit: RetryLimit) -> Seq<char> {
    match limit {
        RetryLimit::Finite(most) => text::decimal_text(most as nat),
        RetryLimit::Infinite => "infinite"@,
    }
}

/// What is shown when retry number `attempt` begins.
pub open spec fn notification_text(attempt: u32, limit: RetryLimit) -> Seq<char> {
    "Provider error, retrying (attempt "@ + text::decimal_text(attempt as nat) + "/"@ + limit_text(
        limit,
    ) + ")..."@
}

/// `kickoff` with its counter set to `attempt`.
pub open spec fn counted(kickoff: message::MessageView, attempt: u32) -> message::MessageView {
    message::MessageView {
        retry_attempts: Some(json::JsonView::Integer(attempt as int)),
        ..kickoff
    }
}

/// The conversation up to and including its kickoff, with `attempt` retries counted
/// on the kickoff.
pub open spec fn restarted(
    conversation: Seq<message::MessageView>,
    kickoff: int,
    attempt: u32,
) -> Seq<message::MessageView> {
    conversation.take(kickoff).push(counted(conversation[kickoff], attempt))
}

/// A retry that is due.
#[derive(Debug)]
pub struct PendingRetry {
    /// Which retry of the turn it is, counted from one; `u32::MAX` for all later ones.
    pub attempt: u32,
    /// The limit, as it is shown.
    pub limit_display: String,
    /// What to show while waiting.
    pub notification: String,
    /// How long to wait.
    pub interval: Duration,
}

/// What to do about the conversation as it stands.
#[derive(Debug)]
pub enum Plan {
    /// Nothing: the turn goes on, or ends, as it would without this operation.
    NotApplicable,
    /// Show the notification, wait, and finish the retry.
    Retry(PendingRetry),
}

/// How the wait before a retry ended.
#[derive(Debug, Clone, Copy, PartialEq, Eq, Structural)]
pub enum WaitOutcome {
    Cancelled,
    Elapsed,
}

/// What became of a retry.
#[derive(Debug)]
pub enum RetryOutcome {
    /// Nothing: the conversation stays as it is.
    NotApplicable,
    /// The turn restarts from this conversation.
    Applied(Conversation),
}

/// Retries failed turns as its policy says.
pub struct ProviderErrorRetryOperation {
    policy: ProviderRetryPolicy,
}

impl ProviderErrorRetryOperation {
    /// The policy that the operation follows.
    pub closed spec fn policy(&self) -> ProviderRetryPolicy {
        self.policy
    }

    pub fn new(policy: ProviderRetryPolicy) -> (res: Self)
        ensures
            res.policy() == policy,
    {
        ProviderErrorRetryOperation { policy }
    }

    /// The operation's name.
    pub fn name(&self) -> (res: &'static str)
        ensures
            res@ == "provider_error_retry"@,
    {
        "provider_error_retry"
    }

    /// Whether `message` is the agent's answer to an empty response.
    pub fn is_empty_response(message: &Message) -> (res: bool)
        ensures
            res == empty_response(message@),
    {
        message.role == Role::Assistant && message.error_kind.is_none() && message.concat_text
            == EMPTY_RESPONSE_MESSAGE.to_owned()
    }

    /// Whether `message` reports a refusal.
    pub fn message_is_refusal(message: &Message) -> (res: bool)
        ensures
            res == refusal(message@),
    {
        for i in 0..message.content.len()
            invariant
                forall|j: int| 0 <= j < i ==> !refusal_error(#[trigger] message@.content[j]),
        {
            assert(message@.content[i as int] == message.content@[i as int]@);
            if let Some(error) = message.content[i].as_error() {
                if text::contains(error.message.as_str(), REFUSAL_MARKER) {
                    return true;
                }
            }
        }
        false
    }

    /// Whether `message` says that the task's own retries are used up.
    fn message_is_exhaustion(message: &Message) -> (res: bool)
        ensures
            res == exhaustion(message@),
    {
        for i in 0..message.content.len()
            invariant
                forall|j: int| 0 <= j < i ==> !exhaustion_error(#[trigger] message@.content[j]),
        {
            assert(message@.content[i as int] == message.content@[i as int]@);
            if let Some(error) = message.content[i].as_error() {
                if error.kind == MessageErrorKind::Other && text::starts_with(
                    error.message.as_str(),
                    MAX_RETRY_ATTEMPTS_EXCEEDED,
                ) {
                    return true;
                }
            }
        }
        false
    }

    /// The conversation up to and including its kickoff.
    pub fn reset_conversation(conversation: &Conversation, kickoff: Option<usize>) -> (res: Result<
        Conversation,
        KickoffMissing,
    >)
        requires
            kickoff matches Some(k) ==> k < conversation@.len(),
        ensures
            match res {
                Ok(reset) => kickoff is Some && reset@ == conversation@.take(kickoff->0 + 1),
                Err(_) => kickoff is None,
            },
    {
        let since = match messages_since_kickoff(conversation, kickoff) {
            Ok(messages) => messages,
            Err(missing) => return Err(missing),
        };
        let kickoff_at: usize = conversation.messages.len() - since.len();
        let mut messages: Vec<Message> = Vec::new();
        for i in 0..kickoff_at + 1
            invariant
                kickoff_at < conversation.messages@.len(),
                messages@.len() == i,
                forall|j: int|
                    0 <= j < i ==> (#[trigger] messages@[j])@ == conversation.messages@[j]@,
        {
            messages.push(conversation.messages[i].clone());
        }
        let reset = Conversation { messages };
        assert(reset@ =~= conversation@.take(kickoff_at + 1));
        Ok(reset)
    }

    /// The number of retries counted on the first of `messages`. Retries are counted
    /// on the kickoff because a retry replaces the conversation with everything up to
    /// and including it: it is the only message that outlives the attempt it belongs
    /// to.
    pub fn attempts(&self, messages: &[Message]) -> (res: u32)
        ensures
            res == if messages@.len() == 0 {
                0
            } else {
                attempts_of(messages@[0]@)
            },
    {
        if messages.len() == 0 {
            return 0;
        }
        let counter: u64 = match &messages[0].retry_attempts {
            Some(value) => match value.as_u64() {
                Some(n) => n,
                None => 0,
            },
            None => 0,
        };
        assert(#[verifier::truncate] (counter as u32) == counter % 0x1_0000_0000) by (bit_vector);
        #[verifier::truncate] (counter as u32)
    }

    /// Decides whether a retry is due. `trailing_error` is the kind of the error with
    /// which the conversation ends, if it ends with one; `kickoff` is the position of
    /// the message that began the turn, if there is one.
    pub fn plan(
        &self,
        conversation: &Conversation,
        trailing_error: Option<MessageErrorKind>,
        kickoff: Option<usize>,
    ) -> (res: Result<Plan, KickoffMissing>)
        requires
            kickoff matches Some(k) ==> k < conversation@.len(),
        ensures
            res is Err <==> retryable_failure(conversation@, trailing_error) && kickoff is None,
            res matches Ok(Plan::Retry(_)) <==> {
                &&& kickoff is Some
                &&& retry_due(
                    self.policy().max_retries,
                    conversation@,
                    trailing_error,
                    kickoff->0 as int,
                )
            },
            res matches Ok(Plan::Retry(retry)) ==> {
                &&& retry.attempt == next_attempt(attempts_of(conversation@[kickoff->0 as int]))
                &&& retry.limit_display@ == limit_text(self.policy().max_retries)
                &&& retry.notification@ == notification_text(
                    retry.attempt,
                    self.policy().max_retries,
                )
                &&& retry.interval == self.policy().interval
            },
    {
        match trailing_error {
            Some(kind) => {
                let is_refusal = match conversation.last() {
                    Some(message) => Self::message_is_refusal(message),
                    None => false,
                };
                if classify_error(kind) == RetryDecision::Terminal || is_refusal {
                    return Ok(Plan::NotApplicable);
                }
            },
            None => {
                let is_empty = match conversation.last() {
                    Some(message) => Self::is_empty_response(message),
                    None => false,
                };
                if !is_empty {
                    return Ok(Plan::NotApplicable);
                }
            },
        }
        let messages = match messages_since_kickoff(conversation, kickoff) {
            Ok(messages) => messages,
            Err(missing) => return Err(missing),
        };
        // Compaction hides the kickoff from the agent and carries its content in a
        // summary. Resetting to such a kickoff would leave a conversation that
        // inference cannot act on, so the error stays visible instead.
        if !messages[0].agent_visible {
            return Ok(Plan::NotApplicable);
        }
        // A task that used up its own retries ends with an error of its own; retrying
        // that one would go back and forth between the two forever.
        let ghost turn = message::views(messages@);
        for i in 0..messages.len()
            invariant
                turn == message::views(messages@),
                kickoff is Some,
                turn == conversation@.skip(kickoff->0 as int),
                forall|j: int| 0 <= j < i ==> !exhaustion(#[trigger] turn[j]),
        {
            assert(turn[i as int] == messages@[i as int]@);
            if Self::message_is_exhaustion(&messages[i]) {
                return Ok(Plan::NotApplicable);
            }
        }
        let attempts: u32 = self.attempts(messages);
        if let RetryLimit::Finite(limit) = self.policy.max_retries {
            if attempts >= limit {
                return Ok(Plan::NotApplicable);
            }
        }
        // Without a limit the count may run full; retrying goes on all the same.
        let next_attempt: u32 = if attempts < u32::MAX {
            attempts + 1
        } else {
            u32::MAX
        };
        let limit_display = match self.policy.max_retries {
            RetryLimit::Finite(limit) => text::u32_text(limit),
            RetryLimit::Infinite => "infinite".to_owned(),
        };
        let notification = Self::notification(next_attempt, &limit_display);
        let retry = PendingRetry {
            attempt: next_attempt,
            limit_display,
            notification,
            interval: self.policy.interval,
        };
        Ok(Plan::Retry(retry))
    }

    /// What is shown when retry number `attempt` begins.
    fn notification(attempt: u32, limit_display: &String) -> (res: String)
        ensures
            res@ == "Provider error, retrying (attempt "@ + text::decimal_text(attempt as nat)
                + "/"@ + limit_display@ + ")..."@,
    {
        let mut shown = "Provider error, retrying (attempt ".to_owned();
        shown.append(text::u32_text(attempt).as_str());
        shown.append("/");
        shown.append(limit_display.as_str());
        shown.append(")...");
        shown
    }

    /// Ends a retry that [`plan`](Self::plan) found due, once the wait is over.
    pub fn finish(
        &self,
        conversation: &Conversation,
        kickoff: Option<usize>,
        retry: &PendingRetry,
        wait: WaitOutcome,
    ) -> (res: Result<RetryOutcome, KickoffMissing>)
        requires
            kickoff matches Some(k) ==> k < conversation@.len(),
        ensures
            res is Err <==> wait == WaitOutcome::Elapsed && kickoff is None,
            res matches Ok(RetryOutcome::NotApplicable) <==> wait == WaitOutcome::Cancelled,
            res matches Ok(RetryOutcome::Applied(reset)) ==> reset@ == restarted(
                conversation@,
                kickoff->0 as int,
                retry.attempt,
            ),
    {
        if wait == WaitOutcome::Cancelled {
            return Ok(RetryOutcome::NotApplicable);
        }
        let mut reset = match Self::reset_conversation(conversation, kickoff) {
            Ok(reset) => reset,
            Err(missing) => return Err(missing),
        };
        let ghost before = reset@;
        let kickoff_at: usize = reset.messages.len() - 1;
        let mut message = reset.messages[kickoff_at].clone();
        message.retry_attempts = Some(JsonValue::Unsigned(retry.attempt as u64));
        assert(message@ =~= counted(before.last(), retry.attempt));
        reset.messages.set(kickoff_at, message);
        assert(reset@ =~= restarted(conversation@, kickoff->0 as int, retry.attempt));
        Ok(RetryOutcome::Applied(reset))
    }
}

} // verus!
