//! What the views of messages and JSON values hold: everything, as it is.
use vstd::prelude::*;

use crate::json::{JsonValue, JsonView};
use crate::json;
use crate::message;
use crate::message::{Conversation, Message, MessageContent, MessageError};

verus! {

/// The view of a JSON value holds its string, its integer or its printed form, and an
/// integer is a `u64` exactly when it is not negative and not beyond `u64::MAX`.
pub proof fn json_values_are_viewed_whole(value: JsonValue)
    ensures
        value matches JsonValue::Text(s) ==> value@ == JsonView::Text(s@) && value@.as_u64() is None,
        value matches JsonValue::Fraction(s) ==> value@ == JsonView::Fraction(s@)
            && value@.as_u64() is None,
        value matches JsonValue::Unsigned(n) ==> value@ == JsonView::Integer(n as int)
            && value@.as_u64() == Some(n),
        value matches JsonValue::Signed(n) ==> {
            &&& value@ == JsonView::Integer(n as int)
            &&& n >= 0 ==> value@.as_u64() == Some(n as u64)
            &&& n < 0 ==> value@.as_u64() is None
        },
        value is Other ==> value@ == JsonView::Other && value@.as_u64() is None,
        json::view_of(Some(value)) == Some(value@),
        json::view_of(None) is None,
{
}

/// The view of an error holds its kind and its text.
pub proof fn errors_are_viewed_whole(error: MessageError)
    ensures
        error@.kind == error.kind,
        error@.message == error.message@,
        MessageContent::Error(error)@ == message::ContentView::Error(error@),
        MessageContent::Other@ == message::ContentView::Other,
{
}

/// The view of a message holds each of its fields, and each piece of its content in its
/// place.
pub proof fn messages_are_viewed_whole(message: Message)
    ensures
        message@.role == message.role,
        message@.concat_text == message.concat_text@,
        message@.error_kind == message.error_kind,
        message@.agent_visible == message.agent_visible,
        message@.content.len() == message.content@.len(),
        forall|i: int|
            0 <= i < message.content@.len() ==> #[trigger] message@.content[i]
                == message.content@[i]@,
        message.retry_attempts is None ==> message@.retry_attempts is None,
        message.retry_attempts matches Some(value) ==> message@.retry_attempts == Some(value@),
{
}

/// The view of a conversation holds each of its messages in its place.
pub proof fn conversations_are_viewed_whole(conversation: Conversation)
    ensures
        conversation@.len() == conversation.messages@.len(),
        forall|i: int|
            0 <= i < conversation.messages@.len() ==> #[trigger] conversation@[i]
                == conversation.messages@[i]@,
{
}

} // verus!
