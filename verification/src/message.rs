//! Conversations and their messages, as far as retrying a turn reads them.
use vstd::prelude::*;
use vstd::slice::slice_subrange;

use crate::json;
use crate::json::JsonValue;

verus! {

/// Who wrote a message.
#[derive(Debug, Clone, Copy, PartialEq, Eq, Structural)]
pub enum Role {
    User,
    Assistant,
}

/// What went wrong with the provider, as a message records it.
#[derive(Debug, Clone, Copy, PartialEq, Eq, Structural)]
pub enum MessageErrorKind {
    Authentication,
    ContextLengthExceeded,
    CreditsExhausted,
    /// Network errors, server errors, rate limits, and whatever else has no kind of
    /// its own.
    Other,
}

/// An error that is part of a message's content.
#[derive(Debug)]
pub struct MessageError {
    pub kind: MessageErrorKind,
    pub message: String,
}

/// One piece of a message's content.
#[derive(Debug)]
pub enum MessageContent {
    Error(MessageError),
    /// Text, images, tool calls: anything that is not an error.
    Other,
}

/// One message of a conversation.
#[derive(Debug)]
pub struct Message {
    pub role: Role,
    pub content: Vec<MessageContent>,
    /// The text pieces of the content, concatenated.
    pub concat_text: String,
    /// The kind of error that the message stands for, if it stands for one.
    pub error_kind: Option<MessageErrorKind>,
    /// Whether the agent is shown the message at inference.
    pub agent_visible: bool,
    /// The metadata value under
    /// [`PROVIDER_RETRY_ATTEMPTS_META`](crate::policy::PROVIDER_RETRY_ATTEMPTS_META).
    pub retry_attempts: Option<JsonValue>,
}

/// The messages of a session, oldest first.
#[derive(Debug)]
pub struct Conversation {
    pub messages: Vec<Message>,
}

/// The conversation has no message that began the current turn.
#[derive(Debug, Clone, Copy, PartialEq, Eq, Structural)]
pub struct KickoffMissing;

/// What a [`MessageError`] holds.
pub struct ErrorView {
    pub kind: MessageErrorKind,
    pub message: Seq<char>,
}

/// What a [`MessageContent`] holds.
pub enum ContentView {
    Error(ErrorView),
    Other,
}

/// What a [`Message`] holds.
#[verifier::ext_equal]
pub struct MessageView {
    pub role: Role,
    pub content: Seq<ContentView>,
    pub concat_text: Seq<char>,
    pub error_kind: Option<MessageErrorKind>,
    pub agent_visible: bool,
    pub retry_attempts: Option<json::JsonView>,
}

impl View for MessageError {
    type V = ErrorView;

    open spec fn view(&self) -> ErrorView {
        ErrorView { kind: self.kind, message: self.message@ }
    }
}

impl View for MessageContent {
    type V = ContentView;

    open spec fn view(&self) -> ContentView {
        match *self {
            MessageContent::Error(error) => ContentView::Error(error@),
            MessageContent::Other => ContentView::Other,
        }
    }
}

impl View for Message {
    type V = MessageView;

    open spec fn view(&self) -> MessageView {
        MessageView {
            role: self.role,
            content: Seq::new(self.content@.len(), |i: int| self.content@[i]@),
            concat_text: self.concat_text@,
            error_kind: self.error_kind,
            agent_visible: self.agent_visible,
            retry_attempts: json::view_of(self.retry_attempts),
        }
    }
}

/// What each message of `messages` holds.
pub open spec fn views(messages: Seq<Message>) -> Seq<MessageView> {
    Seq::new(messages.len(), |i: int| messages[i]@)
}

impl View for Conversation {
    type V = Seq<MessageView>;

    open spec fn view(&self) -> Seq<MessageView> {
        views(self.messages@)
    }
}

impl Clone for MessageError {
    fn clone(&self) -> (res: Self)
        ensures
            res@ == self@,
    {
        MessageError { kind: self.kind, message: self.message.clone() }
    }
}

impl Clone for MessageContent {
    fn clone(&self) -> (res: Self)
        ensures
            res@ == self@,
    {
        match self {
            MessageContent::Error(error) => MessageContent::Error(error.clone()),
            MessageContent::Other => MessageContent::Other,
        }
    }
}

impl Clone for Message {
    fn clone(&self) -> (res: Self)
        ensures
            res@ == self@,
    {
        let mut content: Vec<MessageContent> = Vec::new();
        for i in 0..self.content.len()
            invariant
                content@.len() == i,
                forall|j: int| 0 <= j < i ==> (#[trigger] content@[j])@ == self.content@[j]@,
        {
            content.push(self.content[i].clone());
        }
        let retry_attempts = match &self.retry_attempts {
            Some(value) => Some(value.clone()),
            None => None,
        };
        let res = Message {
            role: self.role,
            content,
            concat_text: self.concat_text.clone(),
            error_kind: self.error_kind,
            agent_visible: self.agent_visible,
            retry_attempts,
        };
        assert(res@ =~= self@);
        res
    }
}

impl MessageContent {
    /// The error that this piece of content is, if it is one.
    pub fn as_error(&self) -> (res: Option<&MessageError>)
        ensures
            self@ == match res {
                Some(error) => ContentView::Error(error@),
                None => ContentView::Other,
            },
    {
        match self {
            MessageContent::Error(error) => Some(error),
            MessageContent::Other => None,
        }
    }
}

impl Conversation {
    /// The latest message.
    pub fn last(&self) -> (res: Option<&Message>)
        ensures
            match res {
                Some(message) => self@.len() > 0 && message@ == self@.last(),
                None => self@.len() == 0,
            },
    {
        if self.messages.len() == 0 {
            None
        } else {
            Some(&self.messages[self.messages.len() - 1])
        }
    }
}

/// The messages of the current turn: the one that began it, at position `kickoff`,
/// and all later ones.
pub fn messages_since_kickoff(conversation: &Conversation, kickoff: Option<usize>) -> (res: Result<
    &[Message],
    KickoffMissing,
>)
    requires
        kickoff matches Some(k) ==> k < conversation@.len(),
    ensures
        match res {
            Ok(messages) => {
                &&& kickoff is Some
                &&& views(messages@) == conversation@.skip(kickoff->0 as int)
                &&& messages@.len() == conversation@.len() - kickoff->0
                &&& messages@[0]@ == conversation@[kickoff->0 as int]
            },
            Err(_) => kickoff is None,
        },
{
    match kickoff {
        Some(k) => {
            let messages = slice_subrange(
                conversation.messages.as_slice(),
                k,
                conversation.messages.len(),
            );
            assert(views(messages@) =~= conversation@.skip(k as int));
            Ok(messages)
        },
        None => Err(KickoffMissing),
    }
}

} // verus!
