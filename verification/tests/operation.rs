use std::time::Duration;

use provider_retry::json::JsonValue;
use provider_retry::message::{
    messages_since_kickoff, Conversation, KickoffMissing, Message, MessageContent, MessageError,
    MessageErrorKind, Role,
};
use provider_retry::operation::{
    PendingRetry, Plan, ProviderErrorRetryOperation, RetryOutcome, WaitOutcome,
};
use provider_retry::policy::{parse_retries, ProviderRetryPolicy, RetryLimit};

const EMPTY: &str =
    "The model returned an empty response. Please resend your message to continue.";

const OTHER: Option<MessageErrorKind> = Some(MessageErrorKind::Other);

fn said(role: Role, text: &str) -> Message {
    Message {
        role,
        content: vec![MessageContent::Other],
        concat_text: text.to_string(),
        error_kind: None,
        agent_visible: true,
        retry_attempts: None,
    }
}

fn failed(kind: MessageErrorKind, text: &str) -> Message {
    Message {
        role: Role::Assistant,
        content: vec![
            MessageContent::Other,
            MessageContent::Error(MessageError {
                kind,
                message: text.to_string(),
            }),
        ],
        concat_text: String::new(),
        error_kind: Some(kind),
        agent_visible: true,
        retry_attempts: None,
    }
}

fn counting(mut message: Message, attempts: JsonValue) -> Message {
    message.retry_attempts = Some(attempts);
    message
}

fn conversation(messages: Vec<Message>) -> Conversation {
    Conversation { messages }
}

fn operation(max_retries: RetryLimit) -> ProviderErrorRetryOperation {
    ProviderErrorRetryOperation::new(ProviderRetryPolicy {
        max_retries,
        interval: Duration::from_millis(1500),
    })
}

fn planned(
    operation: &ProviderErrorRetryOperation,
    conversation: &Conversation,
    trailing_error: Option<MessageErrorKind>,
    kickoff: Option<usize>,
) -> Option<PendingRetry> {
    match operation.plan(conversation, trailing_error, kickoff) {
        Ok(Plan::Retry(retry)) => Some(retry),
        Ok(Plan::NotApplicable) => None,
        Err(missing) => panic!("{missing:?}"),
    }
}

fn server_error_turn() -> Conversation {
    conversation(vec![
        said(Role::User, "hello"),
        said(Role::Assistant, "hi"),
        said(Role::User, "go on"),
        failed(MessageErrorKind::Other, "Server error: boom"),
    ])
}

#[test]
fn refusal_error_message_is_detected_as_refusal() {
    let refusal = failed(
        MessageErrorKind::Other,
        "Provider refused request: violates policy",
    );
    assert!(ProviderErrorRetryOperation::message_is_refusal(&refusal));

    let server_error = failed(MessageErrorKind::Other, "Server error: boom");
    assert!(!ProviderErrorRetryOperation::message_is_refusal(
        &server_error
    ));

    let empty = said(Role::Assistant, "regular reply");
    assert!(!ProviderErrorRetryOperation::message_is_refusal(&empty));
}

#[test]
fn the_refusal_marker_counts_anywhere_in_any_error() {
    let inside = failed(
        MessageErrorKind::Other,
        "Ran into this error: Provider refused request: no.",
    );
    assert!(ProviderErrorRetryOperation::message_is_refusal(&inside));

    let mut second = failed(MessageErrorKind::Other, "boom");
    second.content.push(MessageContent::Error(MessageError {
        kind: MessageErrorKind::Other,
        message: "Provider refused request".to_string(),
    }));
    assert!(ProviderErrorRetryOperation::message_is_refusal(&second));

    let cased = failed(MessageErrorKind::Other, "provider refused request");
    assert!(!ProviderErrorRetryOperation::message_is_refusal(&cased));

    let plain = said(Role::Assistant, "Provider refused request");
    assert!(!ProviderErrorRetryOperation::message_is_refusal(&plain));
}

#[test]
fn empty_responses_are_recognised() {
    assert!(ProviderErrorRetryOperation::is_empty_response(&said(
        Role::Assistant,
        EMPTY
    )));
    assert!(!ProviderErrorRetryOperation::is_empty_response(&said(
        Role::User,
        EMPTY
    )));
    assert!(!ProviderErrorRetryOperation::is_empty_response(&said(
        Role::Assistant,
        ""
    )));
    let mut error = said(Role::Assistant, EMPTY);
    error.error_kind = Some(MessageErrorKind::Other);
    assert!(!ProviderErrorRetryOperation::is_empty_response(&error));
}

#[test]
fn the_operation_has_a_name() {
    assert_eq!(operation(RetryLimit::Infinite).name(), "provider_error_retry");
}

#[test]
fn a_transient_error_is_retried() {
    let operation = operation(RetryLimit::Finite(3));
    let turn = server_error_turn();
    let retry = planned(&operation, &turn, OTHER, Some(2)).unwrap();

    assert_eq!(retry.attempt, 1);
    assert_eq!(retry.limit_display, "3");
    assert_eq!(
        retry.notification,
        "Provider error, retrying (attempt 1/3)..."
    );
    assert_eq!(retry.interval, Duration::from_millis(1500));

    match operation.finish(&turn, Some(2), &retry, WaitOutcome::Elapsed) {
        Ok(RetryOutcome::Applied(reset)) => {
            assert_eq!(reset.messages.len(), 3);
            assert_eq!(reset.messages[0].concat_text, "hello");
            assert_eq!(reset.messages[1].concat_text, "hi");
            assert_eq!(reset.messages[1].role, Role::Assistant);
            assert!(reset.messages[1].retry_attempts.is_none());
            assert_eq!(reset.messages[2].concat_text, "go on");
            assert!(reset.messages[2].agent_visible);
            assert_eq!(operation.attempts(&reset.messages[2..]), 1);
        }
        other => panic!("{other:?}"),
    }
}

#[test]
fn a_cancelled_wait_changes_nothing() {
    let operation = operation(RetryLimit::Finite(3));
    let turn = server_error_turn();
    let retry = planned(&operation, &turn, OTHER, Some(2)).unwrap();
    assert!(matches!(
        operation.finish(&turn, Some(2), &retry, WaitOutcome::Cancelled),
        Ok(RetryOutcome::NotApplicable)
    ));
    assert!(matches!(
        operation.finish(&turn, None, &retry, WaitOutcome::Cancelled),
        Ok(RetryOutcome::NotApplicable)
    ));
}

#[test]
fn an_empty_response_is_retried() {
    let operation = operation(RetryLimit::Infinite);
    let turn = conversation(vec![
        said(Role::User, "hello"),
        said(Role::Assistant, EMPTY),
    ]);
    let retry = planned(&operation, &turn, None, Some(0)).unwrap();
    assert_eq!(
        retry.notification,
        "Provider error, retrying (attempt 1/infinite)..."
    );
    assert_eq!(retry.limit_display, "infinite");

    let same = planned(&operation, &turn, OTHER, Some(0)).unwrap();
    assert_eq!(same.notification, retry.notification);
}

#[test]
fn a_normal_reply_is_left_alone() {
    let operation = operation(RetryLimit::Infinite);
    let turn = conversation(vec![said(Role::User, "hello"), said(Role::Assistant, "hi")]);
    assert!(planned(&operation, &turn, None, Some(0)).is_none());
    assert!(planned(&operation, &turn, None, None).is_none());
    assert!(planned(&operation, &conversation(vec![]), None, None).is_none());
}

#[test]
fn terminal_errors_pass_through() {
    let operation = operation(RetryLimit::Infinite);
    for kind in [
        MessageErrorKind::Authentication,
        MessageErrorKind::ContextLengthExceeded,
        MessageErrorKind::CreditsExhausted,
    ] {
        let turn = conversation(vec![said(Role::User, "hello"), failed(kind, "no")]);
        assert!(planned(&operation, &turn, Some(kind), Some(0)).is_none());
        assert!(planned(&operation, &turn, Some(kind), None).is_none());
    }
}

#[test]
fn refusals_pass_through() {
    let operation = operation(RetryLimit::Infinite);
    let turn = conversation(vec![
        said(Role::User, "hello"),
        failed(MessageErrorKind::Other, "Provider refused request: no"),
    ]);
    assert!(planned(&operation, &turn, OTHER, Some(0)).is_none());

    // Only a refusal at the very end counts.
    let turn = conversation(vec![
        said(Role::User, "hello"),
        failed(MessageErrorKind::Other, "Provider refused request: no"),
        failed(MessageErrorKind::Other, "boom"),
    ]);
    assert!(planned(&operation, &turn, OTHER, Some(0)).is_some());
}

#[test]
fn a_hidden_kickoff_is_not_restarted() {
    let operation = operation(RetryLimit::Infinite);
    let mut turn = server_error_turn();
    turn.messages[2].agent_visible = false;
    assert!(planned(&operation, &turn, OTHER, Some(2)).is_none());
    assert!(planned(&operation, &turn, OTHER, Some(0)).is_some());
}

#[test]
fn an_exhausted_task_is_not_retried() {
    let operation = operation(RetryLimit::Infinite);
    let exhausted = "Maximum retry attempts (3) exceeded";
    let turn = |kind: MessageErrorKind, text: &str| {
        conversation(vec![
            failed(MessageErrorKind::Other, exhausted),
            said(Role::User, "hello"),
            failed(kind, text),
            failed(MessageErrorKind::Other, "boom"),
        ])
    };
    let other = MessageErrorKind::Other;
    assert!(planned(&operation, &turn(other, exhausted), OTHER, Some(1)).is_none());
    // What earlier turns ended with does not count, nor do other errors.
    assert!(planned(&operation, &turn(other, "boom"), OTHER, Some(1)).is_some());
    assert!(planned(&operation, &turn(other, "boom"), OTHER, Some(0)).is_none());
    let inside = format!("Error: {exhausted}");
    assert!(planned(&operation, &turn(other, &inside), OTHER, Some(1)).is_some());
    let credits = MessageErrorKind::CreditsExhausted;
    assert!(planned(&operation, &turn(credits, exhausted), OTHER, Some(1)).is_some());
}

#[test]
fn a_missing_kickoff_is_an_error() {
    let operation = operation(RetryLimit::Finite(0));
    let turn = server_error_turn();
    assert!(matches!(
        operation.plan(&turn, OTHER, None),
        Err(KickoffMissing)
    ));
    assert!(matches!(
        ProviderErrorRetryOperation::reset_conversation(&turn, None),
        Err(KickoffMissing)
    ));
    assert!(matches!(
        messages_since_kickoff(&turn, None),
        Err(KickoffMissing)
    ));
    let retry = PendingRetry {
        attempt: 1,
        limit_display: String::new(),
        notification: String::new(),
        interval: Duration::ZERO,
    };
    assert!(matches!(
        operation.finish(&turn, None, &retry, WaitOutcome::Elapsed),
        Err(KickoffMissing)
    ));
}

#[test]
fn a_reset_ends_with_the_kickoff() {
    let turn = server_error_turn();
    for kickoff in 0..turn.messages.len() {
        let since = messages_since_kickoff(&turn, Some(kickoff)).unwrap();
        assert_eq!(since.len(), turn.messages.len() - kickoff);
        let reset =
            ProviderErrorRetryOperation::reset_conversation(&turn, Some(kickoff)).unwrap();
        assert_eq!(reset.messages.len(), kickoff + 1);
        for i in 0..=kickoff {
            assert_eq!(
                format!("{:?}", reset.messages[i]),
                format!("{:?}", turn.messages[i])
            );
        }
    }
}

#[test]
fn attempts_are_read_from_the_first_message() {
    let operation = operation(RetryLimit::Infinite);
    let attempts = |value: JsonValue| {
        operation.attempts(&[
            counting(said(Role::User, ""), value),
            counting(said(Role::User, ""), JsonValue::Unsigned(99)),
        ])
    };
    assert_eq!(attempts(JsonValue::Unsigned(7)), 7);
    assert_eq!(attempts(JsonValue::Signed(7)), 7);
    assert_eq!(attempts(JsonValue::Signed(-7)), 0);
    assert_eq!(attempts(JsonValue::Fraction("7.0".to_string())), 0);
    assert_eq!(attempts(JsonValue::Text("7".to_string())), 0);
    assert_eq!(attempts(JsonValue::Other), 0);
    assert_eq!(attempts(JsonValue::Unsigned(4294967298)), 2);
    assert_eq!(attempts(JsonValue::Unsigned(u64::MAX)), u32::MAX);
    assert_eq!(operation.attempts(&[said(Role::User, "")]), 0);
    assert_eq!(operation.attempts(&[]), 0);
}

#[test]
fn json_integers_as_u64() {
    assert_eq!(JsonValue::Unsigned(u64::MAX).as_u64(), Some(u64::MAX));
    assert_eq!(JsonValue::Signed(i64::MAX).as_u64(), Some(i64::MAX as u64));
    assert_eq!(JsonValue::Signed(-1).as_u64(), None);
    assert_eq!(JsonValue::Fraction("1.0".to_string()).as_u64(), None);
}

#[test]
fn retries_stay_within_the_limit() {
    for limit in 0..5u32 {
        let operation = operation(RetryLimit::Finite(limit));
        let mut turn = server_error_turn();
        let mut retries = 0;
        while let Some(retry) = planned(&operation, &turn, OTHER, Some(2)) {
            retries += 1;
            assert_eq!(retry.attempt, retries);
            assert_eq!(
                retry.notification,
                format!("Provider error, retrying (attempt {retries}/{limit})...")
            );
            match operation.finish(&turn, Some(2), &retry, WaitOutcome::Elapsed) {
                Ok(RetryOutcome::Applied(reset)) => turn = reset,
                other => panic!("{other:?}"),
            }
            turn.messages.push(failed(MessageErrorKind::Other, "boom"));
        }
        assert_eq!(retries, limit);
        assert_eq!(operation.attempts(&turn.messages[2..]), limit);
        // The last error stays for the user to see.
        assert_eq!(turn.messages.len(), 4);
    }
}

#[test]
fn without_a_limit_retries_go_on() {
    let operation = operation(RetryLimit::Infinite);
    let mut turn = server_error_turn();
    turn.messages[2].retry_attempts = Some(JsonValue::Unsigned(4294967294));
    let retry = planned(&operation, &turn, OTHER, Some(2)).unwrap();
    assert_eq!(retry.attempt, u32::MAX);
    assert_eq!(
        retry.notification,
        "Provider error, retrying (attempt 4294967295/infinite)..."
    );

    // A full count stays full, and the turn is retried all the same.
    for _ in 0..3 {
        let retry = planned(&operation, &turn, OTHER, Some(2)).unwrap();
        assert_eq!(retry.attempt, u32::MAX);
        match operation.finish(&turn, Some(2), &retry, WaitOutcome::Elapsed) {
            Ok(RetryOutcome::Applied(reset)) => turn = reset,
            other => panic!("{other:?}"),
        }
        assert_eq!(operation.attempts(&turn.messages[2..]), u32::MAX);
        turn.messages.push(failed(MessageErrorKind::Other, "boom"));
    }
}

#[test]
fn an_exhausted_limit_leaves_the_error() {
    let operation = operation(RetryLimit::Finite(u32::MAX));
    let mut turn = server_error_turn();
    turn.messages[2].retry_attempts = Some(JsonValue::Unsigned(4294967295));
    assert!(planned(&operation, &turn, OTHER, Some(2)).is_none());
}

#[test]
fn restarts_do_not_pile_up() {
    let operation = operation(RetryLimit::Infinite);
    let turn = server_error_turn();
    let first = planned(&operation, &turn, OTHER, Some(2)).unwrap();
    let once = match operation.finish(&turn, Some(2), &first, WaitOutcome::Elapsed) {
        Ok(RetryOutcome::Applied(reset)) => reset,
        other => panic!("{other:?}"),
    };
    let second = PendingRetry {
        attempt: 9,
        ..first
    };
    let twice = operation.finish(&once, Some(2), &second, WaitOutcome::Elapsed);
    let direct = operation.finish(&turn, Some(2), &second, WaitOutcome::Elapsed);
    assert_eq!(format!("{twice:?}"), format!("{direct:?}"));
}

#[test]
fn shown_limits_read_back() {
    for limit in [
        RetryLimit::Infinite,
        RetryLimit::Finite(1),
        RetryLimit::Finite(10),
        RetryLimit::Finite(907),
        RetryLimit::Finite(u32::MAX),
    ] {
        let operation = operation(limit);
        let retry = planned(&operation, &server_error_turn(), OTHER, Some(2)).unwrap();
        assert_eq!(parse_retries(&retry.limit_display), limit);
    }
}
