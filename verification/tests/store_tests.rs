use chat_gateway::model::{ChatError, MessageRole};
use chat_gateway::store::ChatService;

#[test]
fn create_and_get_roundtrip() {
    let mut store = ChatService::new();
    let chat = store.create_chat_at(7, "k1".to_string(), 100).unwrap();
    assert_eq!(chat.id, 7);
    assert_eq!(chat.api_key, "k1");
    assert_eq!(chat.created_at, 100);
    assert_eq!(chat.last_updated, 100);
    assert!(chat.messages.is_empty());

    let got = store.get_chat(7).unwrap();
    assert_eq!(got.id, 7);
    assert_eq!(got.api_key, "k1");
    assert!(got.messages.is_empty());
}

#[test]
fn get_unknown_id_is_not_found() {
    let mut store = ChatService::new();
    store.create_chat_at(1, "k".to_string(), 10).unwrap();
    assert!(store.get_chat(2).is_none());
}

#[test]
fn add_message_to_unknown_id_is_not_found() {
    let mut store = ChatService::new();
    store.create_chat_at(1, "k".to_string(), 10).unwrap();
    let r = store.add_message_at(99, "hi".to_string(), MessageRole::User, None, 11);
    assert_eq!(r.unwrap_err(), ChatError::SessionNotFound);
    // No mutation: the one live session is untouched.
    let chats = store.list_chats();
    assert_eq!(chats.len(), 1);
    assert!(chats[0].messages.is_empty());
    assert_eq!(chats[0].last_updated, 10);
}

#[test]
fn create_with_colliding_id_is_rejected() {
    let mut store = ChatService::new();
    store.create_chat_at(5, "a".to_string(), 10).unwrap();
    let r = store.create_chat_at(5, "b".to_string(), 20);
    assert_eq!(r.unwrap_err(), ChatError::IdCollision);
    // The earlier session stands unchanged.
    let got = store.get_chat(5).unwrap();
    assert_eq!(got.api_key, "a");
    assert_eq!(got.created_at, 10);
}

#[test]
fn append_grows_history_and_reports_distinct_lengths() {
    let mut store = ChatService::new();
    store.create_chat_at(1, "k".to_string(), 100).unwrap();
    let mut lengths = Vec::new();
    for (i, text) in ["one", "two", "three"].iter().enumerate() {
        let chat = store
            .add_message_at(1, text.to_string(), MessageRole::User, None, 101 + i as i64)
            .unwrap();
        lengths.push(chat.messages.len());
    }
    assert_eq!(lengths, vec![1, 2, 3]);
    let chat = store.get_chat(1).unwrap();
    assert_eq!(chat.messages.len(), 3);
    assert_eq!(chat.messages[0].content, "one");
    assert_eq!(chat.messages[1].content, "two");
    assert_eq!(chat.messages[2].content, "three");
    // Activity equals the maximum timestamp among the appends.
    assert_eq!(chat.last_updated, 103);
}

#[test]
fn activity_timestamp_never_moves_backwards() {
    let mut store = ChatService::new();
    store.create_chat_at(1, "k".to_string(), 100).unwrap();
    store
        .add_message_at(1, "late".to_string(), MessageRole::User, None, 300)
        .unwrap();
    let chat = store
        .add_message_at(1, "early".to_string(), MessageRole::User, None, 200)
        .unwrap();
    assert_eq!(chat.last_updated, 300);
    assert_eq!(chat.messages[1].timestamp, 200);
}

#[test]
fn appending_to_one_session_leaves_others_alone() {
    let mut store = ChatService::new();
    store.create_chat_at(1, "ka".to_string(), 10).unwrap();
    store.create_chat_at(2, "kb".to_string(), 20).unwrap();
    store
        .add_message_at(1, "only for a".to_string(), MessageRole::User, None, 30)
        .unwrap();
    let b = store.get_chat(2).unwrap();
    assert!(b.messages.is_empty());
    assert_eq!(b.last_updated, 20);
    let a = store.get_chat(1).unwrap();
    assert_eq!(a.messages.len(), 1);
    assert_eq!(a.last_updated, 30);
}

#[test]
fn list_returns_all_live_sessions() {
    let mut store = ChatService::new();
    assert!(store.list_chats().is_empty());
    store.create_chat_at(1, "a".to_string(), 1).unwrap();
    store.create_chat_at(2, "b".to_string(), 2).unwrap();
    let mut ids: Vec<u128> = store.list_chats().iter().map(|c| c.id).collect();
    ids.sort();
    assert_eq!(ids, vec![1, 2]);
}

#[test]
fn eviction_keeps_session_exactly_at_threshold() {
    let mut store = ChatService::new();
    store.create_chat_at(1, "k".to_string(), 1000).unwrap();
    // Activity at exactly now - max_age: not evicted.
    store.evict_older_than(1000 + 50, 50);
    assert!(store.get_chat(1).is_some());
}

#[test]
fn eviction_removes_strictly_older_session() {
    let mut store = ChatService::new();
    store.create_chat_at(1, "k".to_string(), 1000).unwrap();
    store.evict_older_than(1000 + 51, 50);
    assert!(store.get_chat(1).is_none());
    // A later append to the evicted session signals not found.
    let r = store.add_message_at(1, "hi".to_string(), MessageRole::User, None, 1100);
    assert_eq!(r.unwrap_err(), ChatError::SessionNotFound);
}

#[test]
fn eviction_spares_session_touched_after_becoming_eligible() {
    let mut store = ChatService::new();
    store.create_chat_at(1, "k".to_string(), 1000).unwrap();
    // Would be eligible at now = 2000 with max_age 50, but a fresh turn
    // arrives first.
    store
        .add_message_at(1, "still here".to_string(), MessageRole::User, None, 1990)
        .unwrap();
    store.evict_older_than(2000, 50);
    let chat = store.get_chat(1).unwrap();
    assert_eq!(chat.messages.len(), 1);
}

#[test]
fn eviction_is_selective() {
    let mut store = ChatService::new();
    store.create_chat_at(1, "k".to_string(), 100).unwrap();
    store.create_chat_at(2, "k".to_string(), 900).unwrap();
    store.create_chat_at(3, "k".to_string(), 950).unwrap();
    store.evict_older_than(1000, 50);
    assert!(store.get_chat(1).is_none());
    assert!(store.get_chat(2).is_none());
    assert!(store.get_chat(3).is_some());
}

#[test]
fn clock_driven_operations_work_end_to_end() {
    let mut store = ChatService::new();
    let chat = store.create_chat("k1".to_string()).unwrap();
    assert_eq!(chat.created_at, chat.last_updated);
    assert!(chat.messages.is_empty());
    let id = chat.id;
    let updated = store
        .add_message(id, "hello".to_string(), MessageRole::User, None)
        .unwrap();
    assert_eq!(updated.messages.len(), 1);
    assert_eq!(updated.messages[0].content, "hello");
    assert!(matches!(updated.messages[0].role, MessageRole::User));
    // A just-touched session survives the default retention pass.
    store.cleanup_old_chats();
    assert!(store.get_chat(id).is_some());
}

#[test]
fn chat_new_starts_empty_with_equal_timestamps() {
    let chat = chat_gateway::model::Chat::new("k9".to_string());
    assert!(chat.messages.is_empty());
    assert_eq!(chat.created_at, chat.last_updated);
    assert_eq!(chat.api_key, "k9");
}

#[test]
fn chat_add_message_appends_and_advances_activity() {
    let mut chat = chat_gateway::model::Chat::new_at(1, "k".to_string(), 100);
    chat.add_message(chat_gateway::model::Message {
        role: MessageRole::Assistant,
        content: "reply".to_string(),
        timestamp: 150,
        reasoning_content: Some("because".to_string()),
    });
    assert_eq!(chat.messages.len(), 1);
    assert_eq!(chat.messages[0].content, "reply");
    assert_eq!(chat.messages[0].reasoning_content.as_deref(), Some("because"));
    assert_eq!(chat.last_updated, 150);
    assert_eq!(chat.created_at, 100);
}
