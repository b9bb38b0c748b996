//! Data model: conversations (`Chat`), their turns (`Message`), and the
//! error taxonomy of the store and of the exchange orchestrator.
use vstd::prelude::*;

verus! {

/// Who produced a turn: the caller or the remote completion service.
#[derive(Clone, Copy, Debug, PartialEq, Eq, Structural)]
pub enum MessageRole {
    User,
    Assistant,
}

/// One turn of a conversation. Immutable once appended.
#[derive(Debug)]
pub struct Message {
    pub role: MessageRole,
    pub content: String,
    /// Unix timestamp (seconds) of the moment the turn was appended.
    pub timestamp: i64,
    /// Auxiliary reasoning text; present only on some assistant replies.
    pub reasoning_content: Option<String>,
}

/// Mathematical image of a `Message`.
pub struct MessageView {
    pub role: MessageRole,
    pub content: Seq<char>,
    pub timestamp: int,
    pub reasoning_content: Option<Seq<char>>,
}

impl View for Message {
    type V = MessageView;

    open spec fn view(&self) -> MessageView {
        MessageView {
            role: self.role,
            content: self.content@,
            timestamp: self.timestamp as int,
            reasoning_content: self.reasoning_content.deep_view(),
        }
    }
}

impl Clone for Message {
    fn clone(&self) -> (res: Self)
        ensures
            res == *self,
    {
        Message {
            role: self.role,
            content: self.content.clone(),
            timestamp: self.timestamp,
            reasoning_content: match &self.reasoning_content {
                Some(s) => Some(s.clone()),
                None => None,
            },
        }
    }
}

/// A conversation: an identifier, the credential that authorizes remote
/// calls for it, and an append-only sequence of turns.
#[derive(Debug)]
pub struct Chat {
    /// Unique identifier, generated at creation, carried as a 128-bit value.
    pub id: u128,
    /// Unix timestamp (seconds) of creation; immutable.
    pub created_at: i64,
    /// Unix timestamp (seconds) of the latest append; never decreases.
    pub last_updated: i64,
    pub api_key: String,
    pub messages: Vec<Message>,
}

/// Mathematical image of a `Chat`.
pub struct ChatView {
    pub id: u128,
    pub created_at: int,
    pub last_updated: int,
    pub api_key: Seq<char>,
    pub messages: Seq<MessageView>,
}

impl ChatView {
    /// Activity never precedes creation.
    pub open spec fn wf(self) -> bool {
        self.last_updated >= self.created_at
    }

    /// The conversation after one more turn: the turn is appended and the
    /// activity timestamp moves forward to the turn's timestamp if that is
    /// later, and otherwise stays where it was.
    pub open spec fn with_message(self, m: MessageView) -> ChatView {
        ChatView {
            id: self.id,
            created_at: self.created_at,
            last_updated: vstd::math::max(self.last_updated, m.timestamp),
            api_key: self.api_key,
            messages: self.messages.push(m),
        }
    }
}

/// The image of a conversation that was just created.
pub open spec fn new_chat_view(id: u128, api_key: Seq<char>, now: int) -> ChatView {
    ChatView {
        id,
        created_at: now,
        last_updated: now,
        api_key,
        messages: Seq::<MessageView>::empty(),
    }
}

impl View for Chat {
    type V = ChatView;

    open spec fn view(&self) -> ChatView {
        ChatView {
            id: self.id,
            created_at: self.created_at as int,
            last_updated: self.last_updated as int,
            api_key: self.api_key@,
            messages: self.messages@.map_values(|m: Message| m@),
        }
    }
}

impl Chat {
    pub open spec fn wf(self) -> bool {
        self@.wf()
    }

    /// A fresh conversation with the given identifier, created at `now`.
    pub fn new_at(id: u128, api_key: String, now: i64) -> (c: Chat)
        ensures
            c@ == new_chat_view(id, api_key@, now as int),
            c.wf(),
    {
        let c = Chat { id, created_at: now, last_updated: now, api_key, messages: Vec::new() };
        proof {
            assert(c@.messages =~= Seq::<MessageView>::empty());
        }
        c
    }

    /// A fresh conversation with a newly generated identifier, created at the
    /// current time. The identifier and the clock reading are drawn from the
    /// platform, so the contract fixes everything but their values.
    pub fn new(api_key: String) -> (c: Chat)
        ensures
            c@ == new_chat_view(c.id, api_key@, c@.created_at),
            c.wf(),
    {
        let id = crate::sys::fresh_id();
        let now = crate::sys::now_unix();
        Chat::new_at(id, api_key, now)
    }

    /// Append one turn: the message sequence grows by exactly that turn and
    /// the activity timestamp never moves backwards.
    pub fn add_message(&mut self, message: Message)
        requires
            old(self).wf(),
        ensures
            final(self)@ == old(self)@.with_message(message@),
            final(self).wf(),
            final(self)@.last_updated >= old(self)@.last_updated,
            final(self)@.messages.len() == old(self)@.messages.len() + 1,
    {
        let ts = message.timestamp;
        let ghost prev = self@;
        let ghost mv = message@;
        self.messages.push(message);
        if ts > self.last_updated {
            self.last_updated = ts;
        }
        proof {
            assert(self@.messages =~= prev.messages.push(mv));
            assert(self@ == prev.with_message(mv));
        }
    }
}

impl Clone for Chat {
    fn clone(&self) -> (res: Self)
        ensures
            res@ == self@,
    {
        let res = Chat {
            id: self.id,
            created_at: self.created_at,
            last_updated: self.last_updated,
            api_key: self.api_key.clone(),
            messages: self.messages.clone(),
        };
        proof {
            assert forall|i: int| 0 <= i < res.messages@.len() implies res.messages@[i]
                == self.messages@[i] by {
                assert(cloned::<Message>(self.messages@[i], res.messages@[i]));
            }
            assert(res.messages@ =~= self.messages@);
            assert(res@ =~= self@);
        }
        res
    }
}

/// Everything that can go wrong in the store or in one exchange.
#[derive(Debug, PartialEq)]
pub enum ChatError {
    /// The referenced session identifier has no live session, whether never
    /// created or since evicted. Recoverable: create a new session.
    SessionNotFound,
    /// The remote completion service produced no reply; carries the
    /// underlying cause for diagnostics. Recoverable: resubmit.
    RemoteCallFailed(String),
    /// A freshly generated identifier collided with a live session. Not part
    /// of the normal taxonomy: it aborts the single request, never the process.
    IdCollision,
}

/// Payload of a "new chat" request.
#[derive(Debug, Clone)]
pub struct CreateChatRequest {
    pub api_key: String,
}

/// Payload of a "send message" request.
#[derive(Debug, Clone)]
pub struct SendMessageRequest {
    pub user_message: String,
    pub api_key: String,
    pub model_name: String,
}

/// Payload of a "send message" reply: the full conversation after the
/// exchange, and reasoning text when the remote service supplies any.
#[derive(Debug)]
pub struct ChatResponse {
    pub messages: Vec<Message>,
    pub reasoning_content: Option<String>,
}

} // verus!
