use chat_gateway::model::{ChatError, MessageRole};
use chat_gateway::orchestrator::{build_prompt, extract_reply, submit_finish, submit_user, PromptMode};
use chat_gateway::store::ChatService;

#[test]
fn full_exchange_records_both_turns_in_order() {
    let mut store = ChatService::new();
    let chat = store.create_chat_at(1, "k1".to_string(), 100).unwrap();
    assert_eq!(chat.api_key, "k1");

    let prompt = submit_user(&mut store, 1, "Hello?".to_string(), 110, PromptMode::LatestOnly).unwrap();
    assert_eq!(prompt, "Hello?");
    // The remote collaborator is stubbed to answer the prompt with a reply.
    let outcome: Result<String, String> = Ok("Hi there".to_string());
    let resp = submit_finish(&mut store, 1, outcome, 120).unwrap();

    assert_eq!(resp.messages.len(), 2);
    assert!(matches!(resp.messages[0].role, MessageRole::User));
    assert_eq!(resp.messages[0].content, "Hello?");
    assert!(matches!(resp.messages[1].role, MessageRole::Assistant));
    assert_eq!(resp.messages[1].content, "Hi there");
    assert!(resp.messages[0].timestamp <= resp.messages[1].timestamp);
    assert!(resp.reasoning_content.is_none());
}

#[test]
fn submit_to_unknown_session_fails_without_mutation() {
    let mut store = ChatService::new();
    store.create_chat_at(1, "k".to_string(), 100).unwrap();
    let r = submit_user(&mut store, 42, "Hello?".to_string(), 110, PromptMode::LatestOnly);
    assert_eq!(r.unwrap_err(), ChatError::SessionNotFound);
    // No session was touched.
    let chats = store.list_chats();
    assert_eq!(chats.len(), 1);
    assert!(chats[0].messages.is_empty());
    assert_eq!(chats[0].last_updated, 100);
}

#[test]
fn remote_failure_keeps_user_turn_and_nothing_else() {
    let mut store = ChatService::new();
    store.create_chat_at(1, "k".to_string(), 100).unwrap();
    submit_user(&mut store, 1, "Hello?".to_string(), 110, PromptMode::LatestOnly).unwrap();

    let outcome: Result<String, String> = Err("connection reset".to_string());
    let r = submit_finish(&mut store, 1, outcome, 120);
    match r {
        Err(ChatError::RemoteCallFailed(cause)) => assert_eq!(cause, "connection reset"),
        other => panic!("expected RemoteCallFailed, got {:?}", other),
    }

    // The user's turn is durable; no assistant turn followed.
    let chat = store.get_chat(1).unwrap();
    assert_eq!(chat.messages.len(), 1);
    assert!(matches!(chat.messages[0].role, MessageRole::User));
    assert_eq!(chat.messages[0].content, "Hello?");
    assert!(chat
        .messages
        .iter()
        .all(|m| !matches!(m.role, MessageRole::Assistant)));
}

#[test]
fn resubmitting_after_failure_adds_a_second_distinct_turn() {
    let mut store = ChatService::new();
    store.create_chat_at(1, "k".to_string(), 100).unwrap();
    submit_user(&mut store, 1, "Hello?".to_string(), 110, PromptMode::LatestOnly).unwrap();
    let failed: Result<String, String> = Err("timeout".to_string());
    assert!(submit_finish(&mut store, 1, failed, 111).is_err());

    submit_user(&mut store, 1, "Hello?".to_string(), 112, PromptMode::LatestOnly).unwrap();
    let ok: Result<String, String> = Ok("Hi".to_string());
    let resp = submit_finish(&mut store, 1, ok, 113).unwrap();
    assert_eq!(resp.messages.len(), 3);
    assert_eq!(resp.messages[0].content, "Hello?");
    assert_eq!(resp.messages[1].content, "Hello?");
    assert_eq!(resp.messages[2].content, "Hi");
}

#[test]
fn finish_after_eviction_race_signals_not_found() {
    let mut store = ChatService::new();
    store.create_chat_at(1, "k".to_string(), 100).unwrap();
    submit_user(&mut store, 1, "Hello?".to_string(), 110, PromptMode::LatestOnly).unwrap();
    // The session vanishes between the two halves.
    store.evict_older_than(10_000, 50);
    let outcome: Result<String, String> = Ok("Hi".to_string());
    let r = submit_finish(&mut store, 1, outcome, 120);
    assert_eq!(r.unwrap_err(), ChatError::SessionNotFound);
}

#[test]
fn extract_reply_takes_first_candidate() {
    let choices = vec!["first".to_string(), "second".to_string()];
    assert_eq!(extract_reply(&choices), Some("first".to_string()));
}

#[test]
fn extract_reply_yields_no_reply_when_empty() {
    let choices: Vec<String> = Vec::new();
    assert_eq!(extract_reply(&choices), None);
}

#[test]
fn empty_completion_payload_fails_the_exchange() {
    let mut store = ChatService::new();
    store.create_chat_at(1, "k".to_string(), 100).unwrap();
    submit_user(&mut store, 1, "Hello?".to_string(), 110, PromptMode::LatestOnly).unwrap();

    // A decoded payload without candidates yields no reply, so the caller
    // turns it into a failed remote outcome.
    let choices: Vec<String> = Vec::new();
    let outcome: Result<String, String> = match extract_reply(&choices) {
        Some(reply) => Ok(reply),
        None => Err("completion payload carried no choices".to_string()),
    };
    let r = submit_finish(&mut store, 1, outcome, 120);
    assert!(matches!(r, Err(ChatError::RemoteCallFailed(_))));

    // No assistant turn was recorded; the user's turn stands.
    let chat = store.get_chat(1).unwrap();
    assert_eq!(chat.messages.len(), 1);
    assert!(matches!(chat.messages[0].role, MessageRole::User));
}

#[test]
fn full_history_prompt_replays_prior_turns() {
    let mut store = ChatService::new();
    store.create_chat_at(1, "k".to_string(), 100).unwrap();
    submit_user(&mut store, 1, "Hello?".to_string(), 110, PromptMode::LatestOnly).unwrap();
    let ok: Result<String, String> = Ok("Hi there".to_string());
    submit_finish(&mut store, 1, ok, 120).unwrap();

    let prompt =
        submit_user(&mut store, 1, "More".to_string(), 130, PromptMode::FullHistory).unwrap();
    assert_eq!(prompt, "Hello?\nHi there\nMore");
}

#[test]
fn build_prompt_modes_differ_only_on_history() {
    let mut store = ChatService::new();
    store.create_chat_at(1, "k".to_string(), 100).unwrap();
    store
        .add_message_at(1, "first".to_string(), MessageRole::User, None, 110)
        .unwrap();
    let chat = store.get_chat(1).unwrap();
    assert_eq!(build_prompt(&chat, "next", PromptMode::LatestOnly), "next");
    assert_eq!(build_prompt(&chat, "next", PromptMode::FullHistory), "first\nnext");
}
