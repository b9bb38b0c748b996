//! The exchange orchestrator: one user turn end-to-end. An exchange is two
//! store transitions around one remote completion call, which the caller
//! performs between them (it is the only step that may block on the
//! network): `submit_user` appends the caller's turn and hands back the
//! prompt to send — when the session is not live it fails at once and no
//! remote call is owed — and `submit_finish` takes the remote outcome and
//! either appends the reply or surfaces the failure, leaving the already
//! appended user turn in place either way.
use vstd::prelude::*;
use vstd::string::StringExecFns;
use crate::model::{Chat, ChatError, ChatResponse, ChatView, Message, MessageRole, MessageView};
use crate::store::{
    ChatService, chat_of, has_chat, ids_unique, lemma_append_isolation, store_append,
};

verus! {

/// How the prompt handed to the remote service is assembled.
#[derive(Clone, Copy, Debug, PartialEq, Eq, Structural)]
pub enum PromptMode {
    /// Send the latest user text alone; prior turns are not re-sent.
    LatestOnly,
    /// Send the whole stored history, each turn's text on its own line,
    /// followed by the latest user text.
    FullHistory,
}

/// The stored turns flattened into one text, each followed by a line break.
pub open spec fn joined_history(msgs: Seq<MessageView>) -> Seq<char>
    decreases msgs.len(),
{
    if msgs.len() == 0 {
        Seq::<char>::empty()
    } else {
        joined_history(msgs.drop_last()) + msgs.last().content + seq!['\n']
    }
}

/// The prompt owed to the remote service for a session whose stored history
/// is `history`, when the caller's new text is `user_text`.
pub open spec fn prompt_view(history: Seq<MessageView>, user_text: Seq<char>, mode: PromptMode)
    -> Seq<char> {
    match mode {
        PromptMode::LatestOnly => user_text,
        PromptMode::FullHistory => joined_history(history) + user_text,
    }
}

/// Assemble the prompt for `user_text` against the session's stored history.
pub fn build_prompt(chat: &Chat, user_text: &str, mode: PromptMode) -> (r: String)
    ensures
        r@ == prompt_view(chat@.messages, user_text@, mode),
{
    match mode {
        PromptMode::LatestOnly => user_text.to_owned(),
        PromptMode::FullHistory => {
            let mut s = String::new();
            let mut i: usize = 0;
            while i < chat.messages.len()
                invariant
                    i <= chat.messages@.len(),
                    s@ == joined_history(chat@.messages.take(i as int)),
                decreases chat.messages@.len() - i,
            {
                s.append(chat.messages[i].content.as_str());
                s.append("\n");
                proof {
                    reveal_strlit("\n");
                    assert("\n"@ =~= seq!['\n']);
                    assert(chat@.messages.take(i as int + 1).drop_last() =~= chat@.messages.take(
                        i as int,
                    ));
                    assert(chat@.messages.take(i as int + 1).last() == chat@.messages[i as int]);
                    assert(s@ =~= joined_history(chat@.messages.take(i as int + 1)));
                }
                i = i + 1;
            }
            proof {
                assert(chat@.messages.take(chat@.messages.len() as int) =~= chat@.messages);
            }
            s.append(user_text);
            s
        },
    }
}

/// The turn recorded for the caller's text at `now`.
pub open spec fn user_turn(content: Seq<char>, now: int) -> MessageView {
    MessageView {
        role: MessageRole::User,
        content,
        timestamp: now,
        reasoning_content: None,
    }
}

/// The turn recorded for the remote service's reply at `now`; this service
/// returns plain text, so no reasoning text is recorded.
pub open spec fn assistant_turn(content: Seq<char>, now: int) -> MessageView {
    MessageView {
        role: MessageRole::Assistant,
        content,
        timestamp: now,
        reasoning_content: None,
    }
}

/// First half of one exchange: append the caller's turn to the session at
/// `now` and return the prompt owed to the remote service, assembled per
/// `mode` against the history as it stood before this turn. Fails exactly
/// when the session is not live, and then changes nothing: no remote call
/// is owed.
pub fn submit_user(
    service: &mut ChatService,
    chat_id: u128,
    user_text: String,
    now: i64,
    mode: PromptMode,
) -> (r: Result<String, ChatError>)
    requires
        old(service).wf(),
    ensures
        final(service).wf(),
        r is Ok <==> has_chat(old(service)@, chat_id),
        match r {
            Ok(prompt) => prompt@ == prompt_view(
                chat_of(old(service)@, chat_id).messages,
                user_text@,
                mode,
            ) && final(service)@ == store_append(
                old(service)@,
                chat_id,
                user_turn(user_text@, now as int),
            ),
            Err(e) => e == ChatError::SessionNotFound && final(service)@ == old(service)@,
        },
{
    match service.get_chat(chat_id) {
        None => Err(ChatError::SessionNotFound),
        Some(chat) => {
            let prompt = build_prompt(&chat, user_text.as_str(), mode);
            match service.add_message_at(chat_id, user_text, MessageRole::User, None, now) {
                Ok(_chat) => Ok(prompt),
                Err(e) => Err(e),
            }
        },
    }
}

/// Second half of one exchange: take the remote outcome and finish. A remote
/// failure is surfaced with its cause and changes nothing — the user turn
/// appended by `submit_user` stays, a durable part of the history. A reply
/// is appended as an assistant turn at `now`, and the session's full message
/// sequence is returned; if the session vanished between the halves (a race
/// with eviction), the exchange fails as not found and changes nothing.
pub fn submit_finish(
    service: &mut ChatService,
    chat_id: u128,
    outcome: Result<String, String>,
    now: i64,
) -> (r: Result<ChatResponse, ChatError>)
    requires
        old(service).wf(),
    ensures
        final(service).wf(),
        outcome matches Err(cause) ==> final(service)@ == old(service)@ && (r matches Err(e)
            && e matches ChatError::RemoteCallFailed(c) && c@ == cause@),
        outcome matches Ok(reply) ==> {
            &&& r is Ok <==> has_chat(old(service)@, chat_id)
            &&& match r {
                Ok(resp) => final(service)@ == store_append(
                    old(service)@,
                    chat_id,
                    assistant_turn(reply@, now as int),
                ) && resp.messages@.map_values(|mm: Message| mm@) == chat_of(
                    final(service)@,
                    chat_id,
                ).messages && resp.reasoning_content is None,
                Err(e) => e == ChatError::SessionNotFound && final(service)@ == old(service)@,
            }
        },
{
    match outcome {
        Err(cause) => Err(ChatError::RemoteCallFailed(cause)),
        Ok(reply) => match service.add_message_at(
            chat_id,
            reply,
            MessageRole::Assistant,
            None,
            now,
        ) {
            Ok(chat) => Ok(ChatResponse { messages: chat.messages, reasoning_content: None }),
            Err(e) => Err(e),
        },
    }
}

/// The reply text drawn from the remote service's candidate replies: the
/// first candidate. An empty candidate list is a reply the service did not
/// produce, so it yields no text — the caller must treat it as a failed
/// remote call, never as an assistant turn.
pub fn extract_reply(choices: &Vec<String>) -> (r: Option<String>)
    ensures
        r is Some <==> choices@.len() > 0,
        r matches Some(reply) ==> reply@ == choices@[0]@,
{
    if choices.len() == 0 {
        None
    } else {
        Some(choices[0].clone())
    }
}

/// Partial-failure durability: once the caller's turn is appended, a failed
/// remote call (which, by `submit_finish`, changes nothing) leaves the
/// session's history exactly one turn longer than before the exchange, that
/// turn is the caller's, every earlier turn stands untouched, and no
/// assistant turn was added.
pub proof fn lemma_partial_failure_durability(s: Seq<ChatView>, id: u128, m: MessageView)
    requires
        ids_unique(s),
        has_chat(s, id),
        m.role == MessageRole::User,
    ensures
        chat_of(store_append(s, id, m), id).messages == chat_of(s, id).messages.push(m),
        chat_of(store_append(s, id, m), id).messages.len() == chat_of(s, id).messages.len() + 1,
        chat_of(store_append(s, id, m), id).messages.last() == m,
        chat_of(store_append(s, id, m), id).messages.last().role == MessageRole::User,
        forall|j: int| 0 <= j < chat_of(s, id).messages.len() ==> chat_of(
            store_append(s, id, m),
            id,
        ).messages[j] == chat_of(s, id).messages[j],
{
    lemma_append_isolation(s, id, m);
}

} // verus!
