//! What calls of the public functions give back, in terms of what they are given, and
//! how calls relate to each other.
use vstd::prelude::*;

use crate::json;
use crate::json::JsonValue;
use crate::laws;
use crate::laws_message;
use crate::laws_operation;
use crate::laws_policy;
use crate::message;
use crate::message::{
    messages_since_kickoff, Conversation, KickoffMissing, Message, MessageContent,
    MessageError, MessageErrorKind, Role,
};
use crate::operation::{
    PendingRetry, Plan, ProviderErrorRetryOperation, RetryOutcome, WaitOutcome,
};
use crate::operation;
use crate::policy;
use crate::policy::{
    classify_error, config_value_as_string, load_policy, parse_interval_seconds, parse_retries,
    ProviderRetryPolicy, RetryDecision, RetryLimit,
};
use crate::text;

verus! {

/// The digits of a text that is an optional sign and a numeral.
pub open spec fn digits_of(word: Seq<char>) -> Seq<char> {
    if word.len() > 0 && (word[0] == '+' || word[0] == '-') {
        word.drop_first()
    } else {
        word
    }
}

proof fn sign_and_digits(word: Seq<char>)
    requires
        laws_policy::signed_numeral(word),
    ensures
        laws_policy::numeral(digits_of(word)),
        word[0] == '-' ==> word == seq!['-'] + digits_of(word),
        word[0] == '+' ==> word == seq!['+'] + digits_of(word),
        word[0] != '-' && word[0] != '+' ==> word == digits_of(word),
{
    if laws_policy::numeral(word) {
        assert(laws_policy::decimal_digit(word[0]));
    }
    if word[0] == '-' {
        assert(word =~= seq!['-'] + digits_of(word));
    }
    if word[0] == '+' {
        assert(word =~= seq!['+'] + digits_of(word));
    }
}

/// What [`parse_retries`] makes of a text, whatever whitespace stands around it: no
/// limit of the word `infinite` in any case and of minus one; the limit that a numeral
/// names, at most the largest there is; three of anything else.
pub proof fn parse_retries_reads(
    raw: &str,
    limit: RetryLimit,
    lead: Seq<char>,
    word: Seq<char>,
    trail: Seq<char>,
)
    requires
        call_ensures(parse_retries, (raw,), limit),
        raw@ == lead + word + trail,
        laws_policy::blank(lead),
        laws_policy::blank(trail),
        laws_policy::bare(word),
    ensures
        laws_policy::infinite_word(word) ==> limit == RetryLimit::Infinite,
        laws_policy::signed_numeral(word) ==> {
            let n = laws_policy::place_value(digits_of(word));
            &&& word[0] != '-' && n <= u32::MAX ==> limit == RetryLimit::Finite(n as u32)
            &&& word[0] != '-' && n > u32::MAX ==> limit == RetryLimit::Finite(u32::MAX)
            &&& word[0] == '-' && n == 0 ==> limit == RetryLimit::Finite(0)
            &&& word[0] == '-' && n == 1 ==> limit == RetryLimit::Infinite
            &&& word[0] == '-' && n > 1 ==> limit == RetryLimit::Finite(3)
        },
        !laws_policy::infinite_word(word) && !laws_policy::signed_numeral(word) ==> limit
            == RetryLimit::Finite(3),
{
    if laws_policy::infinite_word(word) {
        laws_policy::the_word_means_no_limit(lead, word, trail);
    }
    if laws_policy::signed_numeral(word) {
        sign_and_digits(word);
        if word[0] == '-' {
            laws_policy::negative_numerals(lead, digits_of(word), trail);
        } else {
            laws_policy::numerals_mean_what_they_name(
                lead,
                word[0] == '+',
                digits_of(word),
                trail,
            );
        }
    }
    if !laws_policy::infinite_word(word) && !laws_policy::signed_numeral(word) {
        laws_policy::other_texts_mean_nothing(lead, word, trail);
    }
}

/// What [`parse_interval_seconds`] makes of a text, whatever whitespace stands around
/// it: the number that a numeral without a minus names, if it fits in a `u64`; nothing
/// of anything else.
pub proof fn parse_interval_seconds_reads(
    raw: &str,
    secs: Option<u64>,
    lead: Seq<char>,
    word: Seq<char>,
    trail: Seq<char>,
)
    requires
        call_ensures(parse_interval_seconds, (raw,), secs),
        raw@ == lead + word + trail,
        laws_policy::blank(lead),
        laws_policy::blank(trail),
        laws_policy::bare(word),
    ensures
        ({
            let n = laws_policy::place_value(digits_of(word));
            secs == if laws_policy::signed_numeral(word) && word[0] != '-' && n <= u64::MAX {
                Some(n as u64)
            } else {
                None
            }
        }),
{
    if laws_policy::signed_numeral(word) {
        sign_and_digits(word);
        if word[0] == '-' {
            laws_policy::negative_numerals(lead, digits_of(word), trail);
        } else {
            laws_policy::numerals_mean_what_they_name(
                lead,
                word[0] == '+',
                digits_of(word),
                trail,
            );
        }
    } else if laws_policy::infinite_word(word) {
        laws_policy::the_word_means_no_limit(lead, word, trail);
    } else {
        laws_policy::other_texts_mean_nothing(lead, word, trail);
    }
}

/// A configured string, or a number with a fraction as it prints, has the limit that
/// [`parse_retries`] reads in its text, whatever interval is configured.
pub proof fn load_policy_reads_limits_as_text(
    s: String,
    retries: JsonValue,
    interval: Option<JsonValue>,
    policy: ProviderRetryPolicy,
    raw: &str,
    limit: RetryLimit,
)
    requires
        call_ensures(load_policy, (Some(retries), interval), policy),
        retries == JsonValue::Text(s) || retries == JsonValue::Fraction(s),
        call_ensures(parse_retries, (raw,), limit),
        raw@ == s@,
    ensures
        policy.max_retries == limit,
{
    laws_message::json_values_are_viewed_whole(retries);
    laws_policy::configured_texts(s@, retries@);
}

/// A configured string, or a number with a fraction as it prints, has the interval that
/// [`parse_interval_seconds`] reads in its text, or five seconds if it reads none,
/// whatever limit is configured.
pub proof fn load_policy_reads_intervals_as_text(
    retries: Option<JsonValue>,
    s: String,
    interval: JsonValue,
    policy: ProviderRetryPolicy,
    raw: &str,
    secs: Option<u64>,
)
    requires
        call_ensures(load_policy, (retries, Some(interval)), policy),
        interval == JsonValue::Text(s) || interval == JsonValue::Fraction(s),
        call_ensures(parse_interval_seconds, (raw,), secs),
        raw@ == s@,
    ensures
        secs matches Some(n) ==> policy.interval == policy::seconds(n),
        secs is None ==> policy.interval == policy::seconds(5),
{
    laws_message::json_values_are_viewed_whole(interval);
    laws_policy::configured_texts(s@, interval@);
}

/// A configured integer is the limit that it names, at most the largest there is; minus
/// one is no limit, and any other negative one means three.
pub proof fn load_policy_reads_integer_limits(
    n: int,
    retries: JsonValue,
    interval: Option<JsonValue>,
    policy: ProviderRetryPolicy,
)
    requires
        call_ensures(load_policy, (Some(retries), interval), policy),
        (retries matches JsonValue::Unsigned(u) && u == n) || (retries matches JsonValue::Signed(i)
            && i == n),
    ensures
        0 <= n <= u32::MAX ==> policy.max_retries == RetryLimit::Finite(n as u32),
        n > u32::MAX ==> policy.max_retries == RetryLimit::Finite(u32::MAX),
        n == -1 ==> policy.max_retries == RetryLimit::Infinite,
        n < -1 ==> policy.max_retries == RetryLimit::Finite(3),
{
    laws_message::json_values_are_viewed_whole(retries);
    laws::configured_integers(n);
}

/// A configured integer is an interval of that many seconds, or of five if it is
/// negative.
pub proof fn load_policy_reads_integer_intervals(
    n: int,
    retries: Option<JsonValue>,
    interval: JsonValue,
    policy: ProviderRetryPolicy,
)
    requires
        call_ensures(load_policy, (retries, Some(interval)), policy),
        (interval matches JsonValue::Unsigned(u) && u == n) || (interval matches JsonValue::Signed(
            i,
        ) && i == n),
    ensures
        n >= 0 ==> policy.interval == policy::seconds(n as u64),
        n < 0 ==> policy.interval == policy::seconds(5),
{
    laws_message::json_values_are_viewed_whole(interval);
    laws::configured_integers(n);
}

/// Where nothing is configured, or neither a string nor a number, there are three
/// retries, and there are five seconds between them; each whatever the other is.
pub proof fn load_policy_has_defaults(
    retries: Option<JsonValue>,
    interval: Option<JsonValue>,
    policy: ProviderRetryPolicy,
)
    requires
        call_ensures(load_policy, (retries, interval), policy),
    ensures
        retries is None || retries == Some(JsonValue::Other) ==> policy.max_retries
            == RetryLimit::Finite(3),
        interval is None || interval == Some(JsonValue::Other) ==> policy.interval
            == policy::seconds(5),
{
    laws_policy::configured_nothing(None);
    laws_policy::configured_nothing(Some(json::JsonView::Other));
}

/// What [`config_value_as_string`] gives: a string as it is, a number with a fraction as
/// it prints, an integer as the numeral without leading zeros that names it, with a
/// minus if it is negative, and nothing of anything else.
pub proof fn config_values_are_strings(value: Option<JsonValue>, res: Option<String>)
    requires
        call_ensures(config_value_as_string, (value,), res),
    ensures
        value matches Some(JsonValue::Text(s)) ==> res is Some && res->0@ == s@,
        value matches Some(JsonValue::Fraction(s)) ==> res is Some && res->0@ == s@,
        value matches Some(JsonValue::Unsigned(n)) ==> {
            &&& res is Some
            &&& laws_policy::numeral(res->0@)
            &&& laws_policy::place_value(res->0@) == n
            &&& res->0@.len() > 1 ==> res->0@[0] != '0'
        },
        value matches Some(JsonValue::Signed(n)) ==> {
            let digits = if n < 0 {
                res->0@.drop_first()
            } else {
                res->0@
            };
            &&& res is Some
            &&& n < 0 ==> res->0@.len() > 1 && res->0@[0] == '-'
            &&& laws_policy::numeral(digits)
            &&& laws_policy::place_value(digits) == if n < 0 {
                -(n as int)
            } else {
                n as int
            }
            &&& digits.len() > 1 ==> digits[0] != '0'
        },
        value is None || value == Some(JsonValue::Other) ==> res is None,
{
    match value {
        Some(JsonValue::Unsigned(n)) => {
            laws_policy::integers_print_as_numerals(n as int);
        },
        Some(JsonValue::Signed(n)) => {
            laws_policy::integers_print_as_numerals(n as int);
            laws_policy::integers_print_as_numerals(-(n as int));
            if n < 0 {
                assert(res->0@.drop_first() =~= text::integer_text(-(n as int)));
            }
        },
        _ => {},
    }
}

/// A JSON value is read as a `u64` exactly when it is an integer that is not negative,
/// and then as that integer.
pub proof fn json_integers_are_read(value: &JsonValue, res: Option<u64>)
    requires
        call_ensures(JsonValue::as_u64, (value,), res),
    ensures
        match *value {
            JsonValue::Unsigned(n) => res == Some(n),
            JsonValue::Signed(n) => if n >= 0 {
                res == Some(n as u64)
            } else {
                res is None
            },
            _ => res is None,
        },
{
    laws_message::json_values_are_viewed_whole(*value);
}

/// The last message of a conversation is the one at its end, if it has any.
pub proof fn last_messages_are_at_the_end(conversation: &Conversation, res: Option<&Message>)
    requires
        call_ensures(Conversation::last, (conversation,), res),
    ensures
        res is None <==> conversation.messages@.len() == 0,
        res matches Some(message) ==> message@ == conversation.messages@.last()@,
{
    laws_message::conversations_are_viewed_whole(*conversation);
}

/// A piece of content is an error exactly when it was made as one, and then it is that
/// error, with its kind and its text.
pub proof fn content_errors_are_found(content: &MessageContent, res: Option<&MessageError>)
    requires
        call_ensures(MessageContent::as_error, (content,), res),
    ensures
        *content is Other ==> res is None,
        *content matches MessageContent::Error(error) ==> {
            &&& res is Some
            &&& res->0.kind == error.kind
            &&& res->0.message@ == error.message@
        },
{
    if let MessageContent::Error(error) = *content {
        laws_message::errors_are_viewed_whole(error);
    }
}

/// [`classify_error`] retries errors of no special kind and no others.
pub proof fn classify_error_decides(kind: MessageErrorKind, decision: RetryDecision)
    requires
        call_ensures(classify_error, (kind,), decision),
    ensures
        kind == MessageErrorKind::Other <==> decision == RetryDecision::Retry,
        kind != MessageErrorKind::Other <==> decision == RetryDecision::Terminal,
{
    laws_operation::only_other_errors_are_retried(kind);
}

/// An empty response is the assistant's message that stands for no error and has the
/// text that answers one, word for word; no other message is.
pub proof fn empty_responses_are_recognised(message: &Message, res: bool)
    requires
        call_ensures(ProviderErrorRetryOperation::is_empty_response, (message,), res),
    ensures
        res <==> {
            &&& message.role == Role::Assistant
            &&& message.error_kind is None
            &&& message.concat_text@
                == "The model returned an empty response. Please resend your message to continue."@
        },
{
}

/// A message is a refusal if an error at any position of its content has the words of a
/// refusal anywhere in its text, and only then.
pub proof fn refusals_are_recognised(message: &Message, res: bool)
    requires
        call_ensures(ProviderErrorRetryOperation::message_is_refusal, (message,), res),
    ensures
        res <==> exists|i: int, p: Seq<char>, q: Seq<char>|
            #![trigger message.content@[i], p + "Provider refused request"@ + q]
            0 <= i < message.content@.len() && (message.content@[i] matches MessageContent::Error(
                error,
            ) && error.message@ == p + "Provider refused request"@ + q),
{
    laws_message::messages_are_viewed_whole(*message);
    laws_operation::refusals_are_found_anywhere(message@);
    if res {
        let i = choose|i: int|
            0 <= i < message@.content.len() && laws_operation::says_refused(
                #[trigger] message@.content[i],
            );
        let error = message@.content[i]->Error_0;
        let (p, q) = choose|p: Seq<char>, q: Seq<char>|
            error.message == #[trigger] (p + "Provider refused request"@ + q);
        assert(message.content@[i]@ == message@.content[i]);
        assert(error.message == p + "Provider refused request"@ + q);
    }
    if exists|i: int, p: Seq<char>, q: Seq<char>|
        #![trigger message.content@[i], p + "Provider refused request"@ + q]
        0 <= i < message.content@.len() && (message.content@[i] matches MessageContent::Error(error)
            && error.message@ == p + "Provider refused request"@ + q) {
        let (i, p, q) = choose|i: int, p: Seq<char>, q: Seq<char>|
            #![trigger message.content@[i], p + "Provider refused request"@ + q]
            0 <= i < message.content@.len() && (message.content@[i] matches MessageContent::Error(
                error,
            ) && error.message@ == p + "Provider refused request"@ + q);
        assert(message@.content[i] == message.content@[i]@);
        assert(laws_operation::says_refused(message@.content[i]));
    }
}

/// The retries counted are those of the first message's counter: its integer, as far as
/// that fits in 32 bits, or none.
pub proof fn attempts_are_read(
    op: &ProviderErrorRetryOperation,
    messages: &[Message],
    res: u32,
)
    requires
        call_ensures(ProviderErrorRetryOperation::attempts, (op, messages), res),
    ensures
        messages@.len() == 0 ==> res == 0,
        messages@.len() > 0 ==> match messages@[0].retry_attempts {
            Some(JsonValue::Unsigned(n)) => {
                &&& n <= u32::MAX ==> res == n
                &&& n > u32::MAX ==> res == n as int % 0x1_0000_0000
            },
            Some(JsonValue::Signed(n)) => {
                &&& n < 0 ==> res == 0
                &&& 0 <= n <= u32::MAX ==> res == n
                &&& n > u32::MAX ==> res == n as int % 0x1_0000_0000
            },
            _ => res == 0,
        },
{
    if messages@.len() > 0 {
        laws_message::messages_are_viewed_whole(messages@[0]);
        laws_operation::counters_are_read(messages@[0]@);
    }
}

/// [`ProviderErrorRetryOperation::plan`] plans a retry exactly when the turn failed
/// transiently or came to nothing, the agent is shown the kickoff, nothing in the turn
/// says that the task's own retries are used up, and the kickoff counts fewer retries
/// than a finite limit allows. It misses the kickoff exactly when there is none and the
/// turn failed so. Otherwise it leaves things as they are.
pub proof fn plans_are_made_exactly_when(
    op: &ProviderErrorRetryOperation,
    conversation: &Conversation,
    trailing_error: Option<MessageErrorKind>,
    kickoff: Option<usize>,
    res: Result<Plan, KickoffMissing>,
)
    requires
        call_ensures(
            ProviderErrorRetryOperation::plan,
            (op, conversation, trailing_error, kickoff),
            res,
        ),
        kickoff matches Some(k) ==> k < conversation.messages@.len(),
    ensures
        ({
            let failed = match trailing_error {
                Some(kind) => kind == MessageErrorKind::Other && !laws_operation::ends_refused(
                    conversation@,
                ),
                None => laws_operation::ends_empty(conversation@),
            };
            &&& res is Err <==> failed && kickoff is None
            &&& (res matches Ok(Plan::Retry(_))) <==> {
                let k = kickoff->0 as int;
                &&& failed
                &&& kickoff is Some
                &&& conversation.messages@[k].agent_visible
                &&& !laws_operation::used_up_since(conversation@, k)
                &&& op.policy().max_retries matches RetryLimit::Finite(most)
                    ==> operation::attempts_of(conversation@[k]) < most
            }
        }),
{
    laws_message::conversations_are_viewed_whole(*conversation);
    match trailing_error {
        Some(kind) => laws_operation::failures_with_an_error(conversation@, kind),
        None => laws_operation::failures_without_an_error(conversation@),
    }
    if let Some(at) = kickoff {
        let k = at as int;
        laws_message::messages_are_viewed_whole(conversation.messages@[k]);
        assert(conversation@[k] == conversation.messages@[k]@);
        laws_operation::retries_are_due_exactly_when(
            op.policy().max_retries,
            conversation@,
            trailing_error,
            k,
        );
    }
}

/// A planned retry has the number after the count that
/// [`ProviderErrorRetryOperation::attempts`] reads on the turn's messages, shows that
/// number and the limit, and waits as long as the policy says.
pub proof fn plans_say_what_to_do(
    op: &ProviderErrorRetryOperation,
    conversation: &Conversation,
    trailing_error: Option<MessageErrorKind>,
    kickoff: Option<usize>,
    retry: PendingRetry,
    turn: &[Message],
    count: u32,
)
    requires
        call_ensures(
            ProviderErrorRetryOperation::plan,
            (op, conversation, trailing_error, kickoff),
            Ok(Plan::Retry(retry)),
        ),
        kickoff matches Some(k) && k < conversation.messages@.len(),
        call_ensures(messages_since_kickoff, (conversation, kickoff), Ok(turn)),
        call_ensures(ProviderErrorRetryOperation::attempts, (op, turn), count),
    ensures
        count < u32::MAX ==> retry.attempt == count + 1,
        count == u32::MAX ==> retry.attempt == u32::MAX,
        retry.interval == op.policy().interval,
        op.policy().max_retries matches RetryLimit::Finite(most) ==> {
            &&& retry.limit_display@ == text::integer_text(most as int)
            &&& retry.notification@ == "Provider error, retrying (attempt "@ + text::integer_text(
                retry.attempt as int,
            ) + "/"@ + text::integer_text(most as int) + ")..."@
        },
        op.policy().max_retries is Infinite ==> {
            &&& retry.limit_display@ == "infinite"@
            &&& retry.notification@ == "Provider error, retrying (attempt "@ + text::integer_text(
                retry.attempt as int,
            ) + "/infinite)..."@
        },
{
    laws_message::conversations_are_viewed_whole(*conversation);
    assert(turn@[0]@ == conversation@[kickoff->0 as int]);
    match op.policy().max_retries {
        RetryLimit::Finite(most) => laws_operation::notifications_name_number_and_limit(
            retry.attempt,
            most,
        ),
        RetryLimit::Infinite => laws_operation::notifications_name_number_and_limit(
            retry.attempt,
            0,
        ),
    }
}

/// A new operation follows the policy that it is given.
pub proof fn operations_follow_their_policy(
    policy: ProviderRetryPolicy,
    op: ProviderErrorRetryOperation,
)
    requires
        call_ensures(ProviderErrorRetryOperation::new, (policy,), op),
    ensures
        op.policy().max_retries == policy.max_retries,
        op.policy().interval == policy.interval,
{
}

/// The messages since the kickoff are the conversation's from the kickoff on, in their
/// order.
pub proof fn turns_begin_at_the_kickoff(
    conversation: &Conversation,
    kickoff: Option<usize>,
    res: Result<&[Message], KickoffMissing>,
)
    requires
        call_ensures(messages_since_kickoff, (conversation, kickoff), res),
        kickoff matches Some(k) ==> k < conversation.messages@.len(),
    ensures
        res is Err <==> kickoff is None,
        res matches Ok(turn) ==> {
            let k = kickoff->0 as int;
            &&& turn@.len() == conversation.messages@.len() - k
            &&& forall|i: int|
                0 <= i < turn@.len() ==> (#[trigger] turn@[i])@ == conversation.messages@[k + i]@
        },
{
    laws_message::conversations_are_viewed_whole(*conversation);
    if let Ok(turn) = res {
        let k = kickoff->0 as int;
        assert forall|i: int| 0 <= i < turn@.len() implies (#[trigger] turn@[i])@
            == conversation.messages@[k + i]@ by {
            assert(message::views(turn@)[i] == conversation@.skip(k)[i]);
            assert(conversation@[k + i] == conversation.messages@[k + i]@);
        }
    }
}

/// A reset conversation is the messages up to and including the kickoff, as they were.
pub proof fn resets_end_with_the_kickoff(
    conversation: &Conversation,
    kickoff: Option<usize>,
    res: Result<Conversation, KickoffMissing>,
)
    requires
        call_ensures(
            ProviderErrorRetryOperation::reset_conversation,
            (conversation, kickoff),
            res,
        ),
        kickoff matches Some(k) ==> k < conversation.messages@.len(),
    ensures
        res is Err <==> kickoff is None,
        res matches Ok(reset) ==> {
            &&& reset.messages@.len() == kickoff->0 + 1
            &&& forall|i: int|
                0 <= i < reset.messages@.len() ==> (#[trigger] reset.messages@[i])@
                    == conversation.messages@[i]@
        },
{
    laws_message::conversations_are_viewed_whole(*conversation);
    if let Ok(reset) = res {
        laws_message::conversations_are_viewed_whole(reset);
        assert forall|i: int| 0 <= i < reset.messages@.len() implies (#[trigger] reset.messages@[i])@
            == conversation.messages@[i]@ by {
            assert(reset@[i] == reset.messages@[i]@);
            assert(conversation@[i] == conversation.messages@[i]@);
        }
    }
}

/// A finished retry changes nothing if the wait was cancelled. Otherwise it leaves the
/// messages up to and including the kickoff, as they were but for the kickoff's counter,
/// on which [`ProviderErrorRetryOperation::attempts`] then reads the number of the retry.
pub proof fn finished_retries_leave_the_count(
    op: &ProviderErrorRetryOperation,
    conversation: &Conversation,
    kickoff: Option<usize>,
    retry: &PendingRetry,
    wait: WaitOutcome,
    res: Result<RetryOutcome, KickoffMissing>,
)
    requires
        call_ensures(
            ProviderErrorRetryOperation::finish,
            (op, conversation, kickoff, retry, wait),
            res,
        ),
        kickoff matches Some(k) ==> k < conversation.messages@.len(),
    ensures
        wait is Cancelled <==> (res matches Ok(RetryOutcome::NotApplicable)),
        wait is Elapsed && kickoff is None <==> res is Err,
        res matches Ok(RetryOutcome::Applied(reset)) ==> {
            let k = kickoff->0 as int;
            let (was, is) = (conversation.messages@[k], reset.messages@[k]);
            &&& reset.messages@.len() == k + 1
            &&& forall|i: int|
                0 <= i < k ==> (#[trigger] reset.messages@[i])@ == conversation.messages@[i]@
            &&& is.role == was.role
            &&& is@.content == was@.content
            &&& is.concat_text@ == was.concat_text@
            &&& is.error_kind == was.error_kind
            &&& is.agent_visible == was.agent_visible
            &&& is@.retry_attempts == Some(json::JsonView::Integer(retry.attempt as int))
            &&& forall|turn: &[Message], count: u32|
                turn@.len() > 0 && turn@[0]@ == is@ && #[trigger] call_ensures(
                    ProviderErrorRetryOperation::attempts,
                    (op, turn),
                    count,
                ) ==> count == retry.attempt
        },
{
    laws_message::conversations_are_viewed_whole(*conversation);
    if let Ok(RetryOutcome::Applied(reset)) = res {
        let k = kickoff->0 as int;
        laws_message::conversations_are_viewed_whole(reset);
        laws_message::messages_are_viewed_whole(conversation.messages@[k]);
        laws_message::messages_are_viewed_whole(reset.messages@[k]);
        laws_operation::restarts_change_the_counter_only(conversation@, k, retry.attempt);
        assert(conversation@[k] == conversation.messages@[k]@);
        assert(reset@[k] == reset.messages@[k]@);
        assert forall|i: int| 0 <= i < k implies (#[trigger] reset.messages@[i])@
            == conversation.messages@[i]@ by {
            assert(reset@[i] == reset.messages@[i]@);
            assert(conversation@[i] == conversation.messages@[i]@);
        }
        laws_operation::counters_are_read(reset@[k]);
    }
}

} // verus!
