//! The record of one exchange, as the conversation log keeps it.

use vstd::prelude::*;
use crate::errors::{caused, describe};
use crate::stamp::unix_millis;

verus! {

/// One exchange: a prompt, the reply to it and when it was recorded.
#[derive(Debug)]
pub struct Chat {
    pub prompt: String,
    pub response: String,
    /// The time of recording, in milliseconds since the Unix epoch.
    pub created_at: i64,
}

/// What the caller is left with when an exchange has been handed to the log.
#[derive(Debug)]
pub struct Delivered {
    /// The reply to give to the user.
    pub reply: String,
    /// What to report to the operator, where the log refused the exchange.
    pub warning: Option<String>,
}

impl Chat {
    /// The exchange of `prompt` and `response`, recorded at `created_at`.
    pub fn new(prompt: String, response: String, created_at: i64) -> (chat: Chat)
        ensures
            chat.prompt == prompt,
            chat.response == response,
            chat.created_at == created_at,
    {
        Chat { prompt, response, created_at }
    }

    /// The exchange of `prompt` and `response`, recorded at the time of the
    /// clock.
    pub fn now(prompt: String, response: String) -> (chat: Chat)
        ensures
            chat.prompt == prompt,
            chat.response == response,
    {
        Chat::new(prompt, response, unix_millis())
    }

    /// Takes the outcome of the write to the log. The reply is the response
    /// either way; a failure of the log is reported beside it.
    pub fn stored(self, outcome: Result<(), String>) -> (delivered: Delivered)
        ensures
            delivered.reply == self.response,
            match outcome {
                Ok(_) => delivered.warning is None,
                Err(cause) => delivered.warning matches Some(text) && text@ == caused(
                    "Failed to store chat in MongoDB"@,
                    cause@,
                ),
            },
    {
        let warning = match outcome {
            Ok(_) => None,
            Err(cause) => Some(describe("Failed to store chat in MongoDB", cause.as_str())),
        };
        Delivered { reply: self.response, warning }
    }
}

} // verus!
