//! What holds of the retry policy and the retry operation as a whole.
use vstd::prelude::*;

use crate::json;
use crate::message;
use crate::message::MessageErrorKind;
use crate::operation;
use crate::policy;
use crate::policy::RetryLimit;
use crate::text;

verus! {

/// A text that spells a number is not the word `infinite`.
proof fn numbers_are_not_the_word(s: Seq<char>)
    requires
        text::signed_number(s) is Some,
    ensures
        !text::same_ignoring_ascii_case(s, "infinite"@),
{
    reveal_strlit("infinite");
    let first = s[0];
    assert(text::is_digit(first) || first == '-' || first == '+');
    assert(text::ascii_lower(first) == first);
}

/// Whitespace around a configured text makes no difference to the policy.
pub proof fn surrounding_space_is_ignored(lead: Seq<char>, raw: Seq<char>, trail: Seq<char>)
    requires
        forall|i: int| 0 <= i < lead.len() ==> text::is_white_space(#[trigger] lead[i]),
        forall|i: int| 0 <= i < trail.len() ==> text::is_white_space(#[trigger] trail[i]),
    ensures
        policy::retries_of(lead + raw + trail) == policy::retries_of(raw),
        policy::interval_seconds_of(lead + raw + trail) == policy::interval_seconds_of(raw),
{
    text::added_space_is_trimmed(lead, raw, trail);
}

/// The case of ASCII letters in a configured text makes no difference to the limit.
pub proof fn letter_case_is_ignored(a: Seq<char>, b: Seq<char>)
    requires
        text::same_ignoring_ascii_case(a, b),
    ensures
        policy::retries_of(a) == policy::retries_of(b),
{
    text::case_survives_trimming(a, b);
    let (x, y) = (text::trimmed(a), text::trimmed(b));
    let word = "infinite"@;
    text::same_case_is_symmetric(x, y);
    if text::signed_number(x) is Some {
        text::numbers_have_no_case(x, y);
    } else if text::signed_number(y) is Some {
        text::numbers_have_no_case(y, x);
    }
    if text::same_ignoring_ascii_case(x, word) {
        text::same_case_is_transitive(y, x, word);
    } else if text::same_ignoring_ascii_case(y, word) {
        text::same_case_is_transitive(x, y, word);
    }
}

/// A text that spells the integer `v` stands for unlimited retries when `v` is -1,
/// for the limit `v` when it is not negative and fits in a `u32`, for the largest
/// finite limit when it is greater, and for the default when `v` is less than -1.
pub proof fn integers_are_limits(raw: Seq<char>, v: int)
    requires
        text::signed_number(text::trimmed(raw)) == Some(v),
    ensures
        v == -1 ==> policy::retries_of(raw) == RetryLimit::Infinite,
        v > u32::MAX ==> policy::retries_of(raw) == RetryLimit::Finite(u32::MAX),
        0 <= v <= u32::MAX ==> policy::retries_of(raw) == RetryLimit::Finite(v as u32),
        v < -1 ==> policy::retries_of(raw) == RetryLimit::Finite(policy::DEFAULT_MAX_RETRIES),
{
    numbers_are_not_the_word(text::trimmed(raw));
}

/// Of two non-negative integers, of any size, the larger never allows fewer retries.
pub proof fn larger_numbers_allow_no_fewer_retries(a: Seq<char>, v: int, b: Seq<char>, w: int)
    requires
        text::signed_number(text::trimmed(a)) == Some(v),
        text::signed_number(text::trimmed(b)) == Some(w),
        0 <= v <= w,
    ensures
        policy::retries_of(a) matches RetryLimit::Finite(x) && policy::retries_of(b) matches
            RetryLimit::Finite(y) && x <= y,
{
    integers_are_limits(a, v);
    integers_are_limits(b, w);
}

/// A text that spells no integer and is not the word `infinite` stands for the
/// default limit.
pub proof fn other_texts_are_the_default(raw: Seq<char>)
    requires
        text::signed_number(text::trimmed(raw)) is None,
        !text::same_ignoring_ascii_case(text::trimmed(raw), "infinite"@),
    ensures
        policy::retries_of(raw) == RetryLimit::Finite(policy::DEFAULT_MAX_RETRIES),
{
}

/// A limit reads back from the text in which it is shown.
pub proof fn shown_limits_read_back(limit: RetryLimit)
    ensures
        policy::retries_of(operation::limit_text(limit)) == limit,
{
    let shown = operation::limit_text(limit);
    match limit {
        RetryLimit::Finite(most) => {
            assert(shown == text::integer_text(most as int));
            text::integer_text_spells(most as int);
            text::numbers_are_trimmed(shown);
            integers_are_limits(shown, most as int);
        },
        RetryLimit::Infinite => {
            reveal_strlit("infinite");
            assert(shown[0] == 'i' && shown.last() == 'e');
            assert(text::trimmed(shown) == shown);
        },
    }
}

/// A number that is configured as a number means what it means as text: -1 no limit,
/// any other integer the limit that it names, `u32::MAX` at most, if it is not negative
/// and the default if it is; an integer of the range of `u64` that many seconds, any
/// other the default.
pub proof fn configured_integers(n: int)
    ensures
        policy::configured_retries(Some(json::JsonView::Integer(n))) == if n == -1 {
            RetryLimit::Infinite
        } else if n > u32::MAX {
            RetryLimit::Finite(u32::MAX)
        } else if 0 <= n {
            RetryLimit::Finite(n as u32)
        } else {
            RetryLimit::Finite(policy::DEFAULT_MAX_RETRIES)
        },
        policy::configured_seconds(Some(json::JsonView::Integer(n))) == if 0 <= n <= u64::MAX {
            n as u64
        } else {
            policy::DEFAULT_RETRY_INTERVAL_SECONDS
        },
{
    let raw = text::integer_text(n);
    text::integer_text_spells(n);
    text::numbers_are_trimmed(raw);
    numbers_are_not_the_word(raw);
}

/// Authentication, context-length and credits errors are never retried, whatever the
/// limit, and need no kickoff to be passed on.
pub proof fn terminal_errors_pass_through(
    limit: RetryLimit,
    conversation: Seq<message::MessageView>,
    kind: MessageErrorKind,
    kickoff: int,
)
    requires
        kind != MessageErrorKind::Other,
    ensures
        !operation::retryable_failure(conversation, Some(kind)),
        !operation::retry_due(limit, conversation, Some(kind), kickoff),
{
}

/// A refusal is never retried, whatever the limit and the kind of its error.
pub proof fn refusals_pass_through(
    limit: RetryLimit,
    conversation: Seq<message::MessageView>,
    kind: MessageErrorKind,
    kickoff: int,
)
    requires
        conversation.len() > 0,
        operation::refusal(conversation.last()),
    ensures
        !operation::retryable_failure(conversation, Some(kind)),
        !operation::retry_due(limit, conversation, Some(kind), kickoff),
{
}

/// An empty response is retried under the same conditions as a transient error.
pub proof fn empty_responses_count_as_transient_errors(
    limit: RetryLimit,
    conversation: Seq<message::MessageView>,
    kickoff: int,
)
    requires
        conversation.len() > 0,
        operation::empty_response(conversation.last()),
        !operation::refusal(conversation.last()),
    ensures
        operation::retry_due(limit, conversation, None, kickoff) == operation::retry_due(
            limit,
            conversation,
            Some(MessageErrorKind::Other),
            kickoff,
        ),
{
}

/// A retry keeps everything before the kickoff, drops everything after it, and
/// leaves on the kickoff a count that reads back as the number of the retry, with
/// nothing else changed.
pub proof fn restarts_keep_the_past(
    conversation: Seq<message::MessageView>,
    kickoff: int,
    attempt: u32,
)
    requires
        0 <= kickoff < conversation.len(),
    ensures
        ({
            let restart = operation::restarted(conversation, kickoff, attempt);
            &&& restart.len() == kickoff + 1
            &&& restart.take(kickoff) == conversation.take(kickoff)
            &&& operation::attempts_of(restart[kickoff]) == attempt
            &&& restart[kickoff] == message::MessageView {
                retry_attempts: restart[kickoff].retry_attempts,
                ..conversation[kickoff]
            }
        }),
{
    let restart = operation::restarted(conversation, kickoff, attempt);
    assert(restart.take(kickoff) =~= conversation.take(kickoff));
}

/// Restarting a turn twice is restarting it once with the later count.
pub proof fn restarts_do_not_pile_up(
    conversation: Seq<message::MessageView>,
    kickoff: int,
    first: u32,
    second: u32,
)
    requires
        0 <= kickoff < conversation.len(),
    ensures
        operation::restarted(
            operation::restarted(conversation, kickoff, first),
            kickoff,
            second,
        ) == operation::restarted(conversation, kickoff, second),
{
    let once = operation::restarted(conversation, kickoff, first);
    assert(operation::restarted(once, kickoff, second) =~= operation::restarted(
        conversation,
        kickoff,
        second,
    ));
}

/// A retry that is due leaves a conversation that inference can act on: it ends with
/// a message that the agent is shown, and nothing in its turn says that the task's
/// own retries are used up.
pub proof fn restarts_can_be_acted_on(
    limit: RetryLimit,
    conversation: Seq<message::MessageView>,
    trailing_error: Option<MessageErrorKind>,
    kickoff: int,
    attempt: u32,
)
    requires
        0 <= kickoff < conversation.len(),
        operation::retry_due(limit, conversation, trailing_error, kickoff),
    ensures
        ({
            let restart = operation::restarted(conversation, kickoff, attempt);
            &&& restart.last().agent_visible
            &&& !operation::any_exhaustion(restart.skip(kickoff))
        }),
{
    let restart = operation::restarted(conversation, kickoff, attempt);
    if operation::any_exhaustion(restart.skip(kickoff)) {
        let turn = conversation.skip(kickoff);
        assert(restart.skip(kickoff)[0] == restart[kickoff]);
        assert(operation::exhaustion(restart[kickoff]));
        assert(restart[kickoff].content == turn[0].content);
        assert(operation::exhaustion(turn[0]));
    }
}

/// The number of a retry that is due under a finite limit is one more than the count
/// before it and does not exceed the limit.
pub proof fn retry_numbers_fit_the_limit(
    most: u32,
    conversation: Seq<message::MessageView>,
    trailing_error: Option<MessageErrorKind>,
    kickoff: int,
)
    requires
        0 <= kickoff < conversation.len(),
        operation::retry_due(RetryLimit::Finite(most), conversation, trailing_error, kickoff),
    ensures
        ({
            let attempts = operation::attempts_of(conversation[kickoff]);
            operation::next_attempt(attempts) == attempts + 1 <= most
        }),
{
}

/// Without a limit no count of earlier retries ends the retrying: a failure that a
/// retry may mend is retried whatever the kickoff counts.
pub proof fn unlimited_retries_never_end(
    conversation: Seq<message::MessageView>,
    trailing_error: Option<MessageErrorKind>,
    kickoff: int,
    attempts: u32,
)
    requires
        0 <= kickoff < conversation.len(),
        operation::retryable_failure(conversation, trailing_error),
        conversation[kickoff].agent_visible,
        !operation::any_exhaustion(conversation.skip(kickoff)),
    ensures
        operation::retry_due(
            RetryLimit::Infinite,
            conversation.update(kickoff, operation::counted(conversation[kickoff], attempts)),
            trailing_error,
            kickoff,
        ),
{
    let recounted = conversation.update(
        kickoff,
        operation::counted(conversation[kickoff], attempts),
    );
    let last = conversation.len() - 1;
    assert(recounted[last].content == conversation[last].content);
    if operation::refusal(recounted.last()) {
        assert(operation::refusal(conversation.last()));
    }
    let (turn, recounted_turn) = (conversation.skip(kickoff), recounted.skip(kickoff));
    assert forall|i: int| 0 <= i < recounted_turn.len() implies !operation::exhaustion(
        #[trigger] recounted_turn[i],
    ) by {
        assert(!operation::exhaustion(turn[i]));
        assert(recounted_turn[i].content == turn[i].content);
    }
}

/// `later` is what a turn came to that was restarted from `earlier`: the restarted
/// conversation, and whatever the new attempt added to it.
pub open spec fn follows(
    earlier: Seq<message::MessageView>,
    later: Seq<message::MessageView>,
    kickoff: int,
) -> bool {
    let attempt = operation::next_attempt(operation::attempts_of(earlier[kickoff]));
    operation::restarted(earlier, kickoff, attempt).is_prefix_of(later)
}

/// `turns` are the conversations of one turn at each of its failures, and each of
/// them was retried: it was due, and the next one follows from it.
pub open spec fn retried_in_a_row(
    limit: RetryLimit,
    turns: Seq<Seq<message::MessageView>>,
    errors: Seq<Option<MessageErrorKind>>,
    kickoff: int,
) -> bool {
    &&& errors.len() == turns.len()
    &&& forall|i: int|
        0 <= i < turns.len() ==> {
            &&& 0 <= kickoff < (#[trigger] turns[i]).len()
            &&& operation::retry_due(limit, turns[i], errors[i], kickoff)
        }
    &&& forall|i: int|
        0 <= i < turns.len() - 1 ==> follows(#[trigger] turns[i], turns[i + 1], kickoff)
}

/// After a retry the counter stands at the number of the retry, one higher unless it is
/// full, whatever the new attempt added to the conversation.
pub proof fn retries_are_counted(
    earlier: Seq<message::MessageView>,
    later: Seq<message::MessageView>,
    kickoff: int,
)
    requires
        0 <= kickoff < earlier.len(),
        follows(earlier, later, kickoff),
    ensures
        kickoff < later.len(),
        later.take(kickoff) == earlier.take(kickoff),
        operation::attempts_of(later[kickoff]) == operation::next_attempt(
            operation::attempts_of(earlier[kickoff]),
        ),
{
    let attempt = operation::next_attempt(operation::attempts_of(earlier[kickoff]));
    let restart = operation::restarted(earlier, kickoff, attempt);
    assert(restart.len() == kickoff + 1);
    assert(later[kickoff] == restart[kickoff]);
    assert(later.take(kickoff) =~= earlier.take(kickoff)) by {
        assert forall|i: int| 0 <= i < kickoff implies later[i] == earlier[i] by {
            assert(restart[i] == earlier[i]);
        }
    }
}

/// Each retry of a turn finds the counter one higher than the one before it, until it
/// is full.
pub proof fn counter_counts_retries(
    limit: RetryLimit,
    turns: Seq<Seq<message::MessageView>>,
    errors: Seq<Option<MessageErrorKind>>,
    kickoff: int,
    i: int,
)
    requires
        retried_in_a_row(limit, turns, errors, kickoff),
        0 <= i < turns.len(),
    ensures
        ({
            let count = operation::attempts_of(turns[0][kickoff]) + i;
            operation::attempts_of(turns[i][kickoff]) == if count < u32::MAX {
                count
            } else {
                u32::MAX as int
            }
        }),
    decreases i,
{
    if i > 0 {
        counter_counts_retries(limit, turns, errors, kickoff, i - 1);
        assert(follows(turns[i - 1], turns[i - 1 + 1], kickoff));
        retries_are_counted(turns[i - 1], turns[i], kickoff);
    }
}

/// A turn is retried no more often than its finite limit leaves room for; from a
/// fresh kickoff, no more often than the limit.
pub proof fn retries_stay_within_the_limit(
    most: u32,
    turns: Seq<Seq<message::MessageView>>,
    errors: Seq<Option<MessageErrorKind>>,
    kickoff: int,
)
    requires
        retried_in_a_row(RetryLimit::Finite(most), turns, errors, kickoff),
        turns.len() > 0,
    ensures
        operation::attempts_of(turns[0][kickoff]) + turns.len() <= most,
{
    let last = turns.len() - 1;
    counter_counts_retries(RetryLimit::Finite(most), turns, errors, kickoff, last);
    assert(operation::retry_due(RetryLimit::Finite(most), turns[last], errors[last], kickoff));
}

/// A turn that was retried and fails again in a way that a retry may mend is retried
/// again exactly while the limit leaves room, and without end when there is no limit.
pub proof fn retried_until_the_limit(
    limit: RetryLimit,
    earlier: Seq<message::MessageView>,
    error: Option<MessageErrorKind>,
    later: Seq<message::MessageView>,
    later_error: Option<MessageErrorKind>,
    kickoff: int,
)
    requires
        0 <= kickoff < earlier.len(),
        operation::retry_due(limit, earlier, error, kickoff),
        follows(earlier, later, kickoff),
        operation::retryable_failure(later, later_error),
        !operation::any_exhaustion(later.skip(kickoff)),
    ensures
        operation::retry_due(limit, later, later_error, kickoff) <==> operation::below_limit(
            limit,
            operation::next_attempt(operation::attempts_of(earlier[kickoff])),
        ),
        limit == RetryLimit::Infinite ==> operation::retry_due(limit, later, later_error, kickoff),
{
    retries_are_counted(earlier, later, kickoff);
    let attempt = operation::next_attempt(operation::attempts_of(earlier[kickoff]));
    let restart = operation::restarted(earlier, kickoff, attempt);
    assert(later[kickoff] == restart[kickoff]);
}

} // verus!
