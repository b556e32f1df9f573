//! The normalised record that travels from the event adapter to the display.

use vstd::prelude::*;

verus! {

/// What a [`Message`] stands for in contracts: two sequences of characters.
pub struct MessageView {
    pub sender: Seq<char>,
    pub content: Seq<char>,
}

/// A chat message ready for display: who said it, and what was said.
///
/// The sender is never empty; the content is arbitrary text and may hold
/// line breaks.
#[derive(Debug, PartialEq, Eq)]
pub struct Message {
    sender: String,
    content: String,
}

impl View for Message {
    type V = MessageView;

    closed spec fn view(&self) -> MessageView {
        MessageView { sender: self.sender@, content: self.content@ }
    }
}

impl Message {
    #[verifier::type_invariant]
    spec fn named(self) -> bool {
        self.sender@.len() > 0
    }

    /// Builds a message, unless the sender is empty.
    pub fn new(sender: String, content: String) -> (built: Option<Message>)
        ensures
            sender@.len() == 0 <==> built is None,
            built matches Some(m) ==> m@.sender == sender@ && m@.content == content@,
    {
        if sender.as_str().unicode_len() == 0 {
            None
        } else {
            Some(Message { sender, content })
        }
    }

    /// The display name of whoever sent the message.
    pub fn sender(&self) -> (name: &str)
        ensures
            name@ == self@.sender,
            name@.len() > 0,
    {
        proof {
            use_type_invariant(self);
        }
        self.sender.as_str()
    }

    /// The body of the message.
    pub fn content(&self) -> (body: &str)
        ensures
            body@ == self@.content,
    {
        self.content.as_str()
    }
}

} // verus!
