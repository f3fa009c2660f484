# provider_retry

A verified turn-level retry policy for an agent that talks to a language-model
provider.

- `src/policy.rs`: the policy, how it is read from configured values, and which
  kinds of errors are worth a retry.
- `src/operation.rs`: the operation that decides whether a failed turn is retried
  and that resets the conversation to the message that began the turn.
- `src/message.rs`, `src/json.rs`: conversations and JSON values, as far as the
  operation reads them.
- `src/text.rs`: what the operation and the policy need to know of text.
- `src/laws.rs`: what holds of the policy and the operation as a whole.
- `app/`: the operation inside an asynchronous state machine.
