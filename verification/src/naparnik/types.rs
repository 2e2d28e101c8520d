//! Conversation state.

use vstd::prelude::*;

verus! {

/// A conversation with the service and the message that the next one answers.
#[derive(Debug, PartialEq, Eq)]
pub struct Conversation {
    id: String,
    parent_uuid: Option<String>,
}

/// The content of a [`Conversation`].
pub struct ConversationView {
    pub id: Seq<char>,
    pub parent: Option<Seq<char>>,
}

/// The text in an optional string.
pub open spec fn optional_text(text: Option<String>) -> Option<Seq<char>> {
    match text {
        Some(text) => Some(text@),
        None => None,
    }
}

impl View for Conversation {
    type V = ConversationView;

    closed spec fn view(&self) -> ConversationView {
        ConversationView { id: self.id@, parent: optional_text(self.parent_uuid) }
    }
}

impl Conversation {
    pub fn new(id: String, parent_uuid: Option<String>) -> (res: Self)
        ensures
            res@ == (ConversationView { id: id@, parent: optional_text(parent_uuid) }),
    {
        Self { id, parent_uuid }
    }

    pub fn id(&self) -> (res: &str)
        ensures
            res@ == self@.id,
    {
        self.id.as_str()
    }

    pub fn parent_uuid(&self) -> (res: Option<&str>)
        ensures
            match res {
                Some(text) => self@.parent == Some(text@),
                None => self@.parent is None,
            },
    {
        match &self.parent_uuid {
            Some(text) => Some(text.as_str()),
            None => None,
        }
    }

    /// The next message answers this one.
    pub fn advance_parent(&mut self, assistant_message_uuid: String)
        ensures
            final(self)@ == (ConversationView {
                id: old(self)@.id,
                parent: Some(assistant_message_uuid@),
            }),
    {
        self.parent_uuid = Some(assistant_message_uuid);
    }
}

} // verus!
