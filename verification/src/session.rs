//! Session state: the ordered, role-tagged chat history of one conversation,
//! together with the next unused point identifier.

use vstd::prelude::*;

verus! {

/// The author of a chat message.
#[derive(Clone, Copy, PartialEq, Eq, Structural, Debug)]
pub enum Role {
    System,
    User,
    Assistant,
}

/// One role-tagged chat message. Immutable once created.
#[derive(Debug)]
pub struct Message {
    pub role: Role,
    pub content: String,
}

impl Clone for Message {
    fn clone(&self) -> (r: Self)
        ensures
            r == *self,
    {
        Message { role: self.role, content: self.content.clone() }
    }
}

/// The mathematical value of a [`Message`]: its role and its text.
pub struct MessageView {
    pub role: Role,
    pub content: Seq<char>,
}

impl View for Message {
    type V = MessageView;

    open spec fn view(&self) -> MessageView {
        MessageView { role: self.role, content: self.content@ }
    }
}

/// In-memory state of one conversation: the message history in conversational
/// order, never reordered, and the next unused point identifier.
#[derive(Debug)]
pub struct Session {
    pub messages: Vec<Message>,
    pub next_id: u64,
}

/// The mathematical value of a [`Session`].
pub struct SessionView {
    pub messages: Seq<MessageView>,
    pub next_id: u64,
}

impl View for Session {
    type V = SessionView;

    open spec fn view(&self) -> SessionView {
        SessionView {
            messages: self.messages@.map_values(|m: Message| m@),
            next_id: self.next_id,
        }
    }
}

impl Session {
    /// A fresh session: no history, and the identifier counter at zero.
    pub fn new() -> (s: Session)
        ensures
            s@.messages == Seq::<MessageView>::empty(),
            s@.next_id == 0,
    {
        let s = Session { messages: Vec::new(), next_id: 0 };
        proof {
            assert(s@.messages =~= Seq::<MessageView>::empty());
        }
        s
    }

    /// Appends a user message holding `text` to the history; the identifier
    /// counter is untouched.
    pub fn push_user(&mut self, text: String)
        ensures
            final(self)@.messages == old(self)@.messages.push(
                MessageView { role: Role::User, content: text@ },
            ),
            final(self)@.next_id == old(self)@.next_id,
    {
        let ghost t = text@;
        self.messages.push(Message { role: Role::User, content: text });
        proof {
            assert(self@.messages =~= old(self)@.messages.push(
                MessageView { role: Role::User, content: t },
            ));
        }
    }

    /// Appends an assistant message holding `text` to the history; the
    /// identifier counter is untouched.
    pub fn push_assistant(&mut self, text: String)
        ensures
            final(self)@.messages == old(self)@.messages.push(
                MessageView { role: Role::Assistant, content: text@ },
            ),
            final(self)@.next_id == old(self)@.next_id,
    {
        let ghost t = text@;
        self.messages.push(Message { role: Role::Assistant, content: text });
        proof {
            assert(self@.messages =~= old(self)@.messages.push(
                MessageView { role: Role::Assistant, content: t },
            ));
        }
    }

    /// How many messages the history holds.
    pub fn len(&self) -> (n: usize)
        ensures
            n == self@.messages.len(),
    {
        self.messages.len()
    }
}

} // verus!
