//! The append-only list of user-facing status messages.

use vstd::prelude::*;

verus! {

/// Status strings shown to the operator, oldest first.
#[derive(Debug)]
pub struct MessagesState {
    pub messages: Vec<String>,
}

impl MessagesState {
    pub fn new() -> (r: Self)
        ensures
            r.messages@ =~= Seq::<String>::empty(),
    {
        MessagesState { messages: Vec::new() }
    }

    /// Drops every message.
    pub fn clear(&mut self)
        ensures
            final(self).messages@ =~= Seq::<String>::empty(),
    {
        self.messages.clear();
    }

    /// Appends one message.
    pub fn push(&mut self, message: String)
        ensures
            final(self).messages@ == old(self).messages@.push(message),
    {
        self.messages.push(message);
    }

    /// All messages, oldest first.
    pub fn messages(&self) -> (r: &Vec<String>)
        ensures
            r == &self.messages,
    {
        &self.messages
    }
}

} // verus!
