//! One turn of the conversation: a role and its content text.

use vstd::prelude::*;
use crate::role::Role;

verus! {

/// One turn of the transcript. Content is whitespace-trimmed at the
/// point a turn is created.
#[derive(Debug, Clone)]
pub struct Message {
    pub role: Role,
    pub content: String,
}

/// The mathematical value of a turn: its role and its content
/// characters.
pub struct MessageV {
    pub role: Role,
    pub content: Seq<char>,
}

impl View for Message {
    type V = MessageV;

    open spec fn view(&self) -> MessageV {
        MessageV { role: self.role, content: self.content@ }
    }
}

/// The mathematical values of a sequence of turns, in order.
pub open spec fn views_of(msgs: Seq<Message>) -> Seq<MessageV> {
    msgs.map_values(|m: Message| m@)
}

impl Message {
    /// Builds a turn from an already-validated role and raw text.
    pub fn new(role: Role, content: String) -> (r: Message)
        ensures
            r@ == (MessageV { role, content: content@ }),
    {
        Message { role, content }
    }
}

} // verus!
