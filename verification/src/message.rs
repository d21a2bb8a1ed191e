//! Chat messages and the request that submits one.

use vstd::prelude::*;

verus! {

/// What a message says, as plain sequences of characters.
pub struct MessageView {
    pub sender: Seq<char>,
    pub content: Seq<char>,
}

/// One chat message: who sent it and what it says.
#[derive(Debug, PartialEq, Eq)]
pub struct Message {
    pub sender: String,
    pub content: String,
}

impl View for Message {
    type V = MessageView;

    open spec fn view(&self) -> MessageView {
        MessageView { sender: self.sender@, content: self.content@ }
    }
}

impl Clone for Message {
    /// A copy for one more recipient.
    fn clone(&self) -> (copy: Message)
        ensures
            copy == *self,
    {
        Message { sender: self.sender.clone(), content: self.content.clone() }
    }
}

/// A request to send a message to everybody who is connected. The payload
/// may be missing.
#[derive(Debug, PartialEq, Eq)]
pub struct SendRequest {
    pub message: Option<Message>,
}

/// Why a request to send was turned down.
#[derive(Clone, Copy, Debug, PartialEq, Eq, Structural)]
pub enum SendError {
    /// The request carries no message.
    InvalidArgument,
}

impl SendError {
    /// A sentence for the caller.
    pub fn description(&self) -> (text: &'static str)
        ensures
            text@ == "the request carries no message"@,
    {
        "the request carries no message"
    }
}

impl SendRequest {
    /// The message of a request, or the error for a request without one.
    pub fn validate(self) -> (outcome: Result<Message, SendError>)
        ensures
            self.message is Some ==> outcome == Ok::<Message, SendError>(self.message->0),
            self.message is None ==> outcome == Err::<Message, SendError>(
                SendError::InvalidArgument,
            ),
    {
        match self.message {
            Some(message) => Ok(message),
            None => Err(SendError::InvalidArgument),
        }
    }
}

} // verus!
