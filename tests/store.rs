use talos::db::{
    add_message, add_message_with, create_conversation, create_conversation_with, delete_conversation,
    delete_messages_after, get_conversations, get_messages, update_conversation_title, update_message_content,
    Store, StoreError,
};
use talos::model::Role;

fn store_with(ids: &[&str]) -> Store {
    let mut s = Store::new();
    for (k, id) in ids.iter().enumerate() {
        create_conversation_with(&mut s, id.to_string(), "T", "m", 10 + k as i64).unwrap();
    }
    s
}

#[test]
fn round_trip_single_message() {
    let mut s = Store::new();
    let id = create_conversation(&mut s, "T", "m").unwrap();
    add_message(&mut s, &id, "user", "hi").unwrap();
    let got = get_messages(&s, &id);
    assert_eq!(got.len(), 1);
    assert_eq!(got[0].role, Role::User);
    assert_eq!(got[0].role.as_str(), "user");
    assert_eq!(got[0].content, "hi");
    assert_eq!(got[0].conversation_id, id);
}

#[test]
fn fresh_identifiers_are_hyphenated_and_distinct() {
    let mut s = Store::new();
    let a = create_conversation(&mut s, "A", "m").unwrap();
    let b = create_conversation(&mut s, "B", "m").unwrap();
    assert_eq!(a.len(), 36);
    assert_eq!(a.matches('-').count(), 4);
    assert_ne!(a, b);
}

#[test]
fn creation_uses_the_wall_clock() {
    let mut s = Store::new();
    create_conversation(&mut s, "A", "m").unwrap();
    let c = &s.conversations[0];
    // 2020-01-01 in milliseconds since the Unix epoch.
    assert!(c.created_at > 1_577_836_800_000);
    assert_eq!(c.created_at, c.updated_at);
}

#[test]
fn messages_come_back_in_call_order() {
    let mut s = store_with(&["c", "d"]);
    let texts = ["one", "two", "three", "four"];
    for (k, t) in texts.iter().enumerate() {
        let role = if k % 2 == 0 { "user" } else { "assistant" };
        add_message_with(&mut s, format!("m{}", k), "c", role, t, 100).unwrap();
        add_message_with(&mut s, format!("x{}", k), "d", "user", "other", 100).unwrap();
    }
    let got = get_messages(&s, "c");
    let contents: Vec<&str> = got.iter().map(|m| m.content.as_str()).collect();
    assert_eq!(contents, texts.to_vec());
    for w in got.windows(2) {
        assert!(w[0].created_at < w[1].created_at);
    }
    assert_eq!(got[1].role, Role::Assistant);
}

#[test]
fn equal_wall_clock_readings_get_distinct_times() {
    let mut s = store_with(&["c"]);
    let a = add_message_with(&mut s, "a".to_string(), "c", "user", "x", 500).unwrap();
    let b = add_message_with(&mut s, "b".to_string(), "c", "user", "y", 500).unwrap();
    let c = add_message_with(&mut s, "c".to_string(), "c", "user", "z", 400).unwrap();
    assert_eq!(a.created_at, 500);
    assert_eq!(b.created_at, 501);
    assert_eq!(c.created_at, 502);
}

#[test]
fn unknown_conversation_has_no_messages() {
    let s = store_with(&["c"]);
    assert!(get_messages(&s, "nope").is_empty());
    assert!(get_messages(&s, "c").is_empty());
}

#[test]
fn delete_then_get_is_empty() {
    let mut s = store_with(&["c", "d"]);
    add_message_with(&mut s, "1".to_string(), "c", "user", "a", 100).unwrap();
    add_message_with(&mut s, "2".to_string(), "d", "user", "b", 100).unwrap();
    add_message_with(&mut s, "3".to_string(), "c", "assistant", "c", 100).unwrap();
    delete_conversation(&mut s, "c");
    assert!(get_messages(&s, "c").is_empty());
    assert_eq!(s.messages.len(), 1);
    assert_eq!(get_messages(&s, "d").len(), 1);
    let ids: Vec<String> = get_conversations(&s).into_iter().map(|c| c.id).collect();
    assert_eq!(ids, vec!["d".to_string()]);
}

#[test]
fn delete_unknown_conversation_is_no_error() {
    let mut s = store_with(&["c"]);
    add_message_with(&mut s, "1".to_string(), "c", "user", "a", 100).unwrap();
    delete_conversation(&mut s, "nope");
    delete_conversation(&mut s, "nope");
    assert_eq!(s.conversations.len(), 1);
    assert_eq!(s.messages.len(), 1);
}

#[test]
fn truncation_boundary() {
    let mut s = store_with(&["c", "d"]);
    add_message_with(&mut s, "m1".to_string(), "c", "user", "a", 100).unwrap();
    add_message_with(&mut s, "m2".to_string(), "c", "assistant", "b", 100).unwrap();
    add_message_with(&mut s, "o1".to_string(), "d", "user", "x", 100).unwrap();
    add_message_with(&mut s, "m3".to_string(), "c", "user", "c", 100).unwrap();
    add_message_with(&mut s, "m4".to_string(), "c", "assistant", "d", 100).unwrap();
    add_message_with(&mut s, "o2".to_string(), "d", "assistant", "y", 100).unwrap();
    delete_messages_after(&mut s, "c", "m2");
    let kept: Vec<String> = get_messages(&s, "c").into_iter().map(|m| m.id).collect();
    assert_eq!(kept, vec!["m1".to_string(), "m2".to_string()]);
    let other: Vec<String> = get_messages(&s, "d").into_iter().map(|m| m.id).collect();
    assert_eq!(other, vec!["o1".to_string(), "o2".to_string()]);
}

#[test]
fn truncation_after_last_or_unknown_changes_nothing() {
    let mut s = store_with(&["c"]);
    add_message_with(&mut s, "m1".to_string(), "c", "user", "a", 100).unwrap();
    add_message_with(&mut s, "m2".to_string(), "c", "assistant", "b", 100).unwrap();
    delete_messages_after(&mut s, "c", "m2");
    delete_messages_after(&mut s, "c", "nope");
    assert_eq!(get_messages(&s, "c").len(), 2);
}

#[test]
fn conversations_list_most_recent_first() {
    let mut s = store_with(&["a", "b", "c"]);
    add_message_with(&mut s, "1".to_string(), "a", "user", "x", 0).unwrap();
    let ids: Vec<String> = get_conversations(&s).into_iter().map(|c| c.id).collect();
    assert_eq!(ids, vec!["a".to_string(), "c".to_string(), "b".to_string()]);
    let list = get_conversations(&s);
    assert_eq!(list[0].updated_at, 13);
    assert_eq!(list[0].created_at, 10);
}

#[test]
fn rename_and_edit_in_place() {
    let mut s = store_with(&["a", "b"]);
    add_message_with(&mut s, "1".to_string(), "a", "user", "x", 0).unwrap();
    update_conversation_title(&mut s, "b", "New");
    update_conversation_title(&mut s, "nope", "Other");
    update_message_content(&mut s, "1", "edited");
    update_message_content(&mut s, "nope", "other");
    let list = get_conversations(&s);
    assert_eq!(list[0].title, "T");
    assert_eq!(list[1].title, "New");
    assert_eq!(list[1].model, "m");
    assert_eq!(get_messages(&s, "a")[0].content, "edited");
}

#[test]
fn add_message_errors() {
    let mut s = store_with(&["a"]);
    assert_eq!(add_message_with(&mut s, "1".to_string(), "a", "robot", "x", 0).unwrap_err(), StoreError::InvalidRole);
    assert_eq!(add_message(&mut s, "a", "", "x").unwrap_err(), StoreError::InvalidRole);
    assert_eq!(
        add_message_with(&mut s, "1".to_string(), "nope", "user", "x", 0).unwrap_err(),
        StoreError::UnknownConversation
    );
    add_message_with(&mut s, "1".to_string(), "a", "system", "x", 0).unwrap();
    assert_eq!(add_message_with(&mut s, "1".to_string(), "a", "user", "y", 0).unwrap_err(), StoreError::DuplicateId);
    assert_eq!(s.messages.len(), 1);
    assert_eq!(s.messages[0].role, Role::System);
}

#[test]
fn create_conversation_errors() {
    let mut s = store_with(&["a"]);
    assert_eq!(create_conversation_with(&mut s, "a".to_string(), "T", "m", 0).unwrap_err(), StoreError::DuplicateId);
    let mut full = Store { conversations: Vec::new(), messages: Vec::new(), clock: i64::MAX };
    assert_eq!(
        create_conversation_with(&mut full, "a".to_string(), "T", "m", 0).unwrap_err(),
        StoreError::ClockExhausted
    );
    assert_eq!(create_conversation(&mut full, "T", "m").unwrap_err(), StoreError::ClockExhausted);
    assert!(full.conversations.is_empty());
}

#[test]
fn clock_exhausted_on_message() {
    let mut s = store_with(&["a"]);
    s.clock = i64::MAX;
    assert_eq!(add_message_with(&mut s, "1".to_string(), "a", "user", "x", 0).unwrap_err(), StoreError::ClockExhausted);
    assert_eq!(StoreError::ClockExhausted.describe(), "store clock exhausted");
}
