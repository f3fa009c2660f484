//! When a turn is retried and what a retry is, in terms of the messages' own fields.
use vstd::prelude::*;

use crate::json;
use crate::laws;
use crate::laws_policy;
use crate::message;
use crate::message::{MessageErrorKind, Role};
use crate::operation;
use crate::policy;
use crate::policy::{RetryDecision, RetryLimit};
use crate::text;

verus! {

/// `content` is an error whose text has the words of a refusal in it.
pub open spec fn says_refused(content: message::ContentView) -> bool {
    content matches message::ContentView::Error(error) && exists|p: Seq<char>, q: Seq<char>|
        error.message == #[trigger] (p + "Provider refused request"@ + q)
}

/// Some piece of the last message's content, at whatever position, says that the
/// provider refused.
pub open spec fn ends_refused(conversation: Seq<message::MessageView>) -> bool {
    conversation.len() > 0 && exists|i: int|
        0 <= i < conversation.last().content.len() && says_refused(
            #[trigger] conversation.last().content[i],
        )
}

/// `content` is an error of no special kind whose text begins as that of a task does
/// whose own retries are used up.
pub open spec fn says_used_up(content: message::ContentView) -> bool {
    content matches message::ContentView::Error(error) && error.kind == MessageErrorKind::Other
        && exists|rest: Seq<char>|
        error.message == #[trigger] ("Maximum retry attempts ("@ + rest)
}

/// Some piece of content of some message from position `from` on says that the task's
/// own retries are used up.
pub open spec fn used_up_since(conversation: Seq<message::MessageView>, from: int) -> bool {
    exists|j: int, i: int|
        from <= j < conversation.len() && 0 <= i < conversation[j].content.len() && says_used_up(
            #[trigger] conversation[j].content[i],
        )
}

/// The last message is the assistant's, stands for no error, and has the text that
/// answers an empty response.
pub open spec fn ends_empty(conversation: Seq<message::MessageView>) -> bool {
    conversation.len() > 0 && {
        let last = conversation.last();
        &&& last.role == Role::Assistant
        &&& last.error_kind is None
        &&& last.concat_text
            == "The model returned an empty response. Please resend your message to continue."@
    }
}

/// A text contains another exactly when it is something, then the other, then
/// something.
pub proof fn containing_is_being_around(whole: Seq<char>, part: Seq<char>)
    ensures
        text::contains_text(whole, part) <==> exists|p: Seq<char>, q: Seq<char>|
            whole == #[trigger] (p + part + q),
{
    if text::contains_text(whole, part) {
        let i = choose|i: int|
            0 <= i <= whole.len() - part.len() && #[trigger] whole.subrange(i, i + part.len())
                == part;
        let (p, q) = (whole.take(i), whole.skip(i + part.len()));
        let mid = whole.subrange(i, i + part.len());
        assert(whole =~= p + mid + q);
        assert(whole == p + part + q);
    }
    if exists|p: Seq<char>, q: Seq<char>| whole == #[trigger] (p + part + q) {
        let (p, q) = choose|p: Seq<char>, q: Seq<char>| whole == #[trigger] (p + part + q);
        let i = p.len() as int;
        assert(whole.subrange(i, i + part.len()) =~= part);
    }
}

proof fn beginning_is_being_before(whole: Seq<char>, part: Seq<char>)
    ensures
        part.is_prefix_of(whole) <==> exists|rest: Seq<char>| whole == #[trigger] (part + rest),
{
    if part.is_prefix_of(whole) {
        let rest = whole.skip(part.len() as int);
        assert(whole =~= part + rest);
    }
    if exists|rest: Seq<char>| whole == #[trigger] (part + rest) {
        let rest = choose|rest: Seq<char>| whole == #[trigger] (part + rest);
        assert(whole.subrange(0, part.len() as int) =~= part);
    }
}

/// A message reports a refusal exactly when one of the pieces of its content, at
/// whatever position, is an error whose text has the words of a refusal in it.
pub proof fn refusals_are_found_anywhere(message: message::MessageView)
    ensures
        operation::refusal(message) <==> exists|i: int|
            0 <= i < message.content.len() && says_refused(#[trigger] message.content[i]),
{
    assert forall|i: int| 0 <= i < message.content.len() implies operation::refusal_error(
        #[trigger] message.content[i],
    ) == says_refused(message.content[i]) by {
        if let message::ContentView::Error(error) = message.content[i] {
            containing_is_being_around(error.message, "Provider refused request"@);
        }
    }
    if operation::refusal(message) {
        let i = choose|i: int|
            0 <= i < message.content.len() && operation::refusal_error(
                #[trigger] message.content[i],
            );
        assert(says_refused(message.content[i]));
    }
    if exists|i: int| 0 <= i < message.content.len() && says_refused(#[trigger] message.content[i]) {
        let i = choose|i: int|
            0 <= i < message.content.len() && says_refused(#[trigger] message.content[i]);
        assert(operation::refusal_error(message.content[i]));
    }
}

proof fn used_up_is_found(conversation: Seq<message::MessageView>, kickoff: int)
    requires
        0 <= kickoff < conversation.len(),
    ensures
        operation::any_exhaustion(conversation.skip(kickoff)) <==> used_up_since(
            conversation,
            kickoff,
        ),
{
    let turn = conversation.skip(kickoff);
    assert forall|content: message::ContentView| #[trigger]
        operation::exhaustion_error(content) == says_used_up(content) by {
        if let message::ContentView::Error(error) = content {
            beginning_is_being_before(error.message, "Maximum retry attempts ("@);
        }
    }
    if operation::any_exhaustion(turn) {
        let j = choose|j: int| 0 <= j < turn.len() && operation::exhaustion(#[trigger] turn[j]);
        let i = choose|i: int|
            0 <= i < turn[j].content.len() && operation::exhaustion_error(
                #[trigger] turn[j].content[i],
            );
        assert(turn[j] == conversation[kickoff + j]);
        assert(says_used_up(conversation[kickoff + j].content[i]));
    }
    if used_up_since(conversation, kickoff) {
        let (j, i) = choose|j: int, i: int|
            kickoff <= j < conversation.len() && 0 <= i < conversation[j].content.len()
                && says_used_up(#[trigger] conversation[j].content[i]);
        assert(turn[j - kickoff] == conversation[j]);
        assert(operation::exhaustion_error(turn[j - kickoff].content[i]));
        assert(operation::exhaustion(turn[j - kickoff]));
    }
}

/// An error is worth a retry exactly when it is of no special kind.
pub proof fn only_other_errors_are_retried(kind: MessageErrorKind)
    ensures
        kind == MessageErrorKind::Other ==> policy::decision_of(kind) == RetryDecision::Retry,
        kind == MessageErrorKind::Authentication || kind == MessageErrorKind::ContextLengthExceeded
            || kind == MessageErrorKind::CreditsExhausted ==> policy::decision_of(kind)
            == RetryDecision::Terminal,
{
}

/// A conversation that ends with an error has failed in a way that a retry may mend
/// exactly when the error is of no special kind and the last message reports no
/// refusal.
pub proof fn failures_with_an_error(
    conversation: Seq<message::MessageView>,
    kind: MessageErrorKind,
)
    ensures
        operation::retryable_failure(conversation, Some(kind)) <==> kind == MessageErrorKind::Other
            && !ends_refused(conversation),
{
    if conversation.len() > 0 {
        refusals_are_found_anywhere(conversation.last());
    }
}

/// A conversation that ends without an error has failed in a way that a retry may mend
/// exactly when its last message is the assistant's, stands for no error and answers an
/// empty response, word for word. Any other reply is left alone.
pub proof fn failures_without_an_error(conversation: Seq<message::MessageView>)
    ensures
        operation::retryable_failure(conversation, None) <==> ends_empty(conversation),
{
}

/// When a conversation ends without an error, a retry is due only if the last message
/// is the assistant's and has the text that answers an empty response.
pub proof fn ordinary_replies_are_left_alone(
    limit: RetryLimit,
    conversation: Seq<message::MessageView>,
    kickoff: int,
)
    requires
        conversation.len() > 0,
        conversation.last().role != Role::Assistant || conversation.last().error_kind is Some
            || conversation.last().concat_text
            != "The model returned an empty response. Please resend your message to continue."@,
    ensures
        !operation::retryable_failure(conversation, None),
        !operation::retry_due(limit, conversation, None, kickoff),
{
    failures_without_an_error(conversation);
}

/// If any piece of the last message's content, from the first on, is an error whose
/// text is something, the words of a refusal, and something, then no error with which
/// the conversation ends is retried, whatever the limit.
pub proof fn refused_conversations_are_not_sent_again(
    limit: RetryLimit,
    conversation: Seq<message::MessageView>,
    i: int,
    refused: message::ErrorView,
    p: Seq<char>,
    q: Seq<char>,
    kind: MessageErrorKind,
    kickoff: int,
)
    requires
        conversation.len() > 0,
        0 <= i < conversation.last().content.len(),
        conversation.last().content[i] == message::ContentView::Error(refused),
        refused.message == p + "Provider refused request"@ + q,
    ensures
        operation::refusal(conversation.last()),
        !operation::retryable_failure(conversation, Some(kind)),
        !operation::retry_due(limit, conversation, Some(kind), kickoff),
{
    assert(says_refused(conversation.last().content[i]));
    refusals_are_found_anywhere(conversation.last());
}

/// A kickoff counts no retries when it has no counter or one that is no integer from
/// zero to `u64::MAX`; otherwise it counts as many as its counter says, as far as that
/// fits in 32 bits.
pub proof fn counters_are_read(kickoff: message::MessageView)
    ensures
        kickoff.retry_attempts is None ==> operation::attempts_of(kickoff) == 0,
        kickoff.retry_attempts matches Some(json::JsonView::Integer(n)) ==> {
            &&& 0 <= n <= u32::MAX ==> operation::attempts_of(kickoff) == n
            &&& u32::MAX < n <= u64::MAX ==> operation::attempts_of(kickoff) == n % 0x1_0000_0000
            &&& n < 0 || n > u64::MAX ==> operation::attempts_of(kickoff) == 0
        },
        kickoff.retry_attempts matches Some(json::JsonView::Text(_)) ==> operation::attempts_of(
            kickoff,
        ) == 0,
        kickoff.retry_attempts matches Some(json::JsonView::Fraction(_)) ==> operation::attempts_of(
            kickoff,
        ) == 0,
        kickoff.retry_attempts matches Some(json::JsonView::Other) ==> operation::attempts_of(
            kickoff,
        ) == 0,
{
}

/// A finite limit leaves room for a retry exactly after fewer retries than it allows;
/// without a limit there always is room.
pub proof fn limits_leave_room(most: u32, attempts: u32)
    ensures
        operation::below_limit(RetryLimit::Finite(most), attempts) <==> (attempts as int) < (
        most as int),
        operation::below_limit(RetryLimit::Infinite, attempts),
{
}

/// A retry is due exactly when the turn failed transiently or came to nothing, the
/// agent is shown the kickoff, nothing in the turn says that the task's own retries are
/// used up, and the kickoff counts fewer retries than a finite limit allows. Nothing
/// else counts: not where in the conversation the turn began, nor what came before it.
pub proof fn retries_are_due_exactly_when(
    limit: RetryLimit,
    conversation: Seq<message::MessageView>,
    trailing_error: Option<MessageErrorKind>,
    kickoff: int,
)
    requires
        0 <= kickoff < conversation.len(),
    ensures
        operation::retry_due(limit, conversation, trailing_error, kickoff) <==> {
            &&& trailing_error is None ==> ends_empty(conversation)
            &&& trailing_error matches Some(kind) ==> kind == MessageErrorKind::Other
                && !ends_refused(conversation)
            &&& conversation[kickoff].agent_visible
            &&& !used_up_since(conversation, kickoff)
            &&& limit matches RetryLimit::Finite(most) ==> (operation::attempts_of(
                conversation[kickoff],
            ) as int) < (most as int)
        },
{
    match trailing_error {
        Some(kind) => failures_with_an_error(conversation, kind),
        None => failures_without_an_error(conversation),
    }
    used_up_is_found(conversation, kickoff);
}

/// The turn that began at position `kickoff` failed and nothing but a limit stands
/// against a retry: its last error is of no special kind and no refusal, the agent is
/// shown the kickoff, and the task's own retries are not used up.
pub open spec fn failed_transiently(
    conversation: Seq<message::MessageView>,
    kickoff: int,
) -> bool {
    &&& 0 <= kickoff < conversation.len()
    &&& !ends_refused(conversation)
    &&& conversation[kickoff].agent_visible
    &&& !used_up_since(conversation, kickoff)
}

/// A transient failure of any turn, the first of a conversation or a later one, is
/// retried when its kickoff counts fewer retries than the limit allows, and without a
/// limit; it is not retried when the kickoff counts as many as the limit allows, or
/// more.
pub proof fn transient_failures_are_retried(
    most: u32,
    conversation: Seq<message::MessageView>,
    kickoff: int,
    count: u32,
)
    requires
        failed_transiently(conversation, kickoff),
        conversation[kickoff].retry_attempts == Some(json::JsonView::Integer(count as int)) || (
        conversation[kickoff].retry_attempts is None && count == 0),
    ensures
        count < most ==> operation::retry_due(
            RetryLimit::Finite(most),
            conversation,
            Some(MessageErrorKind::Other),
            kickoff,
        ),
        count >= most ==> !operation::retry_due(
            RetryLimit::Finite(most),
            conversation,
            Some(MessageErrorKind::Other),
            kickoff,
        ),
        operation::retry_due(
            RetryLimit::Infinite,
            conversation,
            Some(MessageErrorKind::Other),
            kickoff,
        ),
{
    let other = Some(MessageErrorKind::Other);
    counters_are_read(conversation[kickoff]);
    retries_are_due_exactly_when(RetryLimit::Finite(most), conversation, other, kickoff);
    retries_are_due_exactly_when(RetryLimit::Infinite, conversation, other, kickoff);
}

/// The first transient failure of a turn is retried under every limit but zero.
pub proof fn first_failures_are_retried(
    limit: RetryLimit,
    conversation: Seq<message::MessageView>,
    kickoff: int,
)
    requires
        failed_transiently(conversation, kickoff),
        conversation[kickoff].retry_attempts is None,
        limit != RetryLimit::Finite(0),
    ensures
        operation::retry_due(limit, conversation, Some(MessageErrorKind::Other), kickoff),
        operation::next_attempt(operation::attempts_of(conversation[kickoff])) == 1,
{
    match limit {
        RetryLimit::Finite(most) => transient_failures_are_retried(most, conversation, kickoff, 0),
        RetryLimit::Infinite => transient_failures_are_retried(0, conversation, kickoff, 0),
    }
}

/// An empty response is retried when the kickoff counts fewer retries than the limit
/// allows, and without a limit.
pub proof fn empty_responses_are_retried(
    limit: RetryLimit,
    conversation: Seq<message::MessageView>,
    kickoff: int,
)
    requires
        0 <= kickoff < conversation.len(),
        ends_empty(conversation),
        conversation[kickoff].agent_visible,
        !used_up_since(conversation, kickoff),
        limit matches RetryLimit::Finite(most) ==> operation::attempts_of(conversation[kickoff])
            < most,
    ensures
        operation::retry_due(limit, conversation, None, kickoff),
{
    retries_are_due_exactly_when(limit, conversation, None, kickoff);
}

/// A turn whose kickoff the agent is not shown, or in which some message says that the
/// task's own retries are used up, is not retried, whatever its error and the limit.
pub proof fn hidden_and_used_up_turns_are_not_retried(
    limit: RetryLimit,
    conversation: Seq<message::MessageView>,
    trailing_error: Option<MessageErrorKind>,
    kickoff: int,
)
    requires
        0 <= kickoff < conversation.len(),
        !conversation[kickoff].agent_visible || used_up_since(conversation, kickoff),
    ensures
        !operation::retry_due(limit, conversation, trailing_error, kickoff),
{
    retries_are_due_exactly_when(limit, conversation, trailing_error, kickoff);
}

/// What stands before a turn makes no difference: a turn is retried or not whatever
/// messages, and however many, the conversation holds before it.
pub proof fn the_past_makes_no_difference(
    limit: RetryLimit,
    past: Seq<message::MessageView>,
    other_past: Seq<message::MessageView>,
    turn: Seq<message::MessageView>,
    trailing_error: Option<MessageErrorKind>,
)
    requires
        turn.len() > 0,
    ensures
        operation::retry_due(limit, past + turn, trailing_error, past.len() as int)
            == operation::retry_due(
            limit,
            other_past + turn,
            trailing_error,
            other_past.len() as int,
        ),
{
    let (a, b) = (past + turn, other_past + turn);
    assert(a.last() == turn.last() && b.last() == turn.last());
    assert(a[past.len() as int] == turn[0] && b[other_past.len() as int] == turn[0]);
    assert(a.skip(past.len() as int) =~= turn);
    assert(b.skip(other_past.len() as int) =~= turn);
}

/// A retry has the number that follows the count of the kickoff, and leaves that number
/// on the kickoff as its counter; the count stays when it is full.
pub proof fn retries_are_numbered(
    conversation: Seq<message::MessageView>,
    kickoff: int,
    count: u32,
)
    requires
        0 <= kickoff < conversation.len(),
        conversation[kickoff].retry_attempts == Some(json::JsonView::Integer(count as int)) || (
        conversation[kickoff].retry_attempts is None && count == 0),
    ensures
        ({
            let number = operation::next_attempt(operation::attempts_of(conversation[kickoff]));
            let restart = operation::restarted(conversation, kickoff, number);
            &&& count < u32::MAX ==> number == count + 1
            &&& count == u32::MAX ==> number == count
            &&& restart[kickoff].retry_attempts == Some(json::JsonView::Integer(number as int))
        }),
{
    counters_are_read(conversation[kickoff]);
}

/// A restart ends with the kickoff and keeps every message up to it as it was, but for
/// the counter of the kickoff, which holds the number of the retry.
pub proof fn restarts_change_the_counter_only(
    conversation: Seq<message::MessageView>,
    kickoff: int,
    attempt: u32,
)
    requires
        0 <= kickoff < conversation.len(),
    ensures
        ({
            let restart = operation::restarted(conversation, kickoff, attempt);
            let (was, is) = (conversation[kickoff], restart[kickoff]);
            &&& restart.len() == kickoff + 1
            &&& forall|i: int| 0 <= i < kickoff ==> #[trigger] restart[i] == conversation[i]
            &&& is.role == was.role
            &&& is.content == was.content
            &&& is.concat_text == was.concat_text
            &&& is.error_kind == was.error_kind
            &&& is.agent_visible == was.agent_visible
            &&& is.retry_attempts == Some(json::JsonView::Integer(attempt as int))
        }),
{
}

/// The notification of a retry names its number and the limit, in decimal digits or by
/// the word for no limit.
pub proof fn notifications_name_number_and_limit(attempt: u32, most: u32)
    ensures
        operation::limit_text(RetryLimit::Finite(most)) == text::integer_text(most as int),
        operation::limit_text(RetryLimit::Infinite) == "infinite"@,
        operation::notification_text(attempt, RetryLimit::Finite(most))
            == "Provider error, retrying (attempt "@ + text::integer_text(attempt as int) + "/"@
            + text::integer_text(most as int) + ")..."@,
        operation::notification_text(attempt, RetryLimit::Infinite)
            == "Provider error, retrying (attempt "@ + text::integer_text(attempt as int)
            + "/infinite)..."@,
        laws_policy::place_value(text::integer_text(attempt as int)) == attempt,
        laws_policy::place_value(text::integer_text(most as int)) == most,
{
    laws_policy::integers_print_as_numerals(attempt as int);
    laws_policy::integers_print_as_numerals(most as int);
    reveal_strlit("/");
    reveal_strlit("infinite");
    reveal_strlit(")...");
    reveal_strlit("/infinite)...");
    let front = "Provider error, retrying (attempt "@ + text::integer_text(attempt as int);
    assert("/"@ + "infinite"@ + ")..."@ =~= "/infinite)..."@);
    assert(front + "/"@ + "infinite"@ + ")..."@ =~= front + ("/"@ + "infinite"@ + ")..."@));
}

/// `turns` are the conversations of one turn at each of its failures in a row: all of
/// them transient, the first from a kickoff without a counter, and each later one what
/// the restart of the one before came to.
pub open spec fn keeps_failing(turns: Seq<Seq<message::MessageView>>, kickoff: int) -> bool {
    &&& turns.len() > 0 ==> turns[0][kickoff].retry_attempts is None
    &&& forall|i: int| 0 <= i < turns.len() ==> failed_transiently(#[trigger] turns[i], kickoff)
    &&& forall|i: int|
        0 <= i < turns.len() - 1 ==> laws::follows(#[trigger] turns[i], turns[i + 1], kickoff)
}

proof fn failures_are_counted(turns: Seq<Seq<message::MessageView>>, kickoff: int, i: int)
    requires
        keeps_failing(turns, kickoff),
        0 <= i < turns.len(),
        i < u32::MAX,
    ensures
        operation::attempts_of(turns[i][kickoff]) == i,
    decreases i,
{
    if i == 0 {
        counters_are_read(turns[0][kickoff]);
    } else {
        failures_are_counted(turns, kickoff, i - 1);
        assert(failed_transiently(turns[i - 1], kickoff));
        assert(laws::follows(turns[i - 1], turns[i - 1 + 1], kickoff));
        laws::retries_are_counted(turns[i - 1], turns[i], kickoff);
    }
}

/// A turn that keeps failing transiently is retried exactly as often as the limit says:
/// at its first `most` failures, and not at the next one.
pub proof fn failing_turns_are_retried_exactly_so_often(
    most: u32,
    turns: Seq<Seq<message::MessageView>>,
    kickoff: int,
    i: int,
)
    requires
        keeps_failing(turns, kickoff),
        0 <= i < turns.len(),
        i <= most,
    ensures
        operation::retry_due(
            RetryLimit::Finite(most),
            turns[i],
            Some(MessageErrorKind::Other),
            kickoff,
        ) <==> i < most,
{
    let other = Some(MessageErrorKind::Other);
    assert(failed_transiently(turns[i], kickoff));
    retries_are_due_exactly_when(RetryLimit::Finite(most), turns[i], other, kickoff);
    if i < u32::MAX {
        failures_are_counted(turns, kickoff, i);
    } else {
        failures_are_counted(turns, kickoff, i - 1);
        assert(failed_transiently(turns[i - 1], kickoff));
        assert(laws::follows(turns[i - 1], turns[i - 1 + 1], kickoff));
        laws::retries_are_counted(turns[i - 1], turns[i], kickoff);
    }
}

} // verus!
