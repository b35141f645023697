use chatbot::items::Role;
use chatbot::store::{Collection, ContentItem, Database, StoreError};

#[test]
fn idempotent_save() {
    let mut db = Database::new();
    assert_eq!(db.save_content("Hi", Role::User, 100, "10:00", &[Collection::Chat]), Ok(0));
    assert_eq!(db.save_content("Hi", Role::User, 200, "10:01", &[Collection::Chat]), Ok(0));
    assert_eq!(db.get_database_stats(), (1, 1, 0, 0));
    assert_eq!(db.item(0).created_at_unix, 100);
    assert_eq!(db.item(0).display_time, "10:00");
    assert_eq!(db.item(0).external_id.len(), 36);
}

#[test]
fn same_text_other_origin_is_another_item() {
    let mut db = Database::new();
    db.save_content("Hi", Role::User, 100, "a", &[Collection::Chat]).unwrap();
    db.save_content("Hi", Role::Assistant, 100, "a", &[Collection::Chat]).unwrap();
    assert_eq!(db.get_database_stats(), (2, 2, 0, 0));
}

#[test]
fn collection_isolation() {
    let mut db = Database::new();
    let all = [Collection::Chat, Collection::Digest, Collection::LongTerm];
    db.save_content("shared", Role::Assistant, 5, "00:00", &all).unwrap();
    db.save_content("digest only", Role::User, 6, "00:00", &[Collection::Digest]).unwrap();
    let chat_before = db.load_chat_messages();
    let memory_before = db.load_longterm_memory_items();
    db.clear(Collection::Digest);
    assert!(db.load_digest_items().is_empty());
    let chat_after = db.load_chat_messages();
    assert_eq!(chat_after.len(), chat_before.len());
    assert_eq!(chat_after[0].content, chat_before[0].content);
    assert_eq!(chat_after[0].role, chat_before[0].role);
    let memory_after = db.load_longterm_memory_items();
    assert_eq!(memory_after.len(), 1);
    assert_eq!(memory_after[0].id, memory_before[0].id);
    assert_eq!(db.get_database_stats(), (2, 1, 0, 1));
}

#[test]
fn end_to_end_scenario() {
    let mut db = Database::new();
    db.save_content("Hi", Role::User, 100, "10:00", &[Collection::Chat]).unwrap();
    db.save_content("Hi", Role::User, 100, "10:00", &[Collection::Digest]).unwrap();
    let (total, chat, digest, longterm) = db.get_database_stats();
    assert_eq!(total, 1);
    assert_eq!((chat, digest, longterm), (1, 1, 0));
    let chat_items = db.load_chat_messages();
    let digest_items = db.load_digest_items();
    assert_eq!(chat_items.len(), 1);
    assert_eq!(digest_items.len(), 1);
    assert_eq!(chat_items[0].content, "Hi");
    assert_eq!(chat_items[0].role, Role::User);
    assert_eq!(digest_items[0].id, db.item(0).external_id);
    assert_eq!(digest_items[0].content, "Hi");
    assert_eq!(digest_items[0].timestamp, "10:00");
    assert!(!digest_items[0].selected);
}

#[test]
fn loads_are_ordered_by_creation_time() {
    let mut db = Database::new();
    db.save_content_with_id("late", Role::User, 30, "c", &[Collection::Chat], "id-3".to_string())
        .unwrap();
    db.save_content_with_id("early", Role::User, 10, "a", &[Collection::Chat], "id-1".to_string())
        .unwrap();
    db.save_content_with_id("middle", Role::User, 20, "b", &[Collection::Chat], "id-2".to_string())
        .unwrap();
    db.save_content_with_id("tie", Role::User, 20, "b", &[Collection::Chat], "id-4".to_string())
        .unwrap();
    let texts: Vec<String> = db.load_chat_messages().into_iter().map(|m| m.content).collect();
    assert_eq!(texts, vec!["early", "middle", "tie", "late"]);
}

#[test]
fn duplicate_identifier_is_refused() {
    let mut db = Database::new();
    db.save_content_with_id("a", Role::User, 1, "x", &[Collection::Chat], "same".to_string())
        .unwrap();
    assert_eq!(
        db.save_content_with_id("b", Role::User, 2, "x", &[Collection::Chat], "same".to_string()),
        Err(StoreError::DuplicateId)
    );
    assert_eq!(db.len(), 1);
    assert_eq!(
        db.save_content_with_id("a", Role::User, 3, "x", &[Collection::Digest], "same".to_string()),
        Ok(0)
    );
    assert_eq!(db.get_database_stats(), (1, 1, 1, 0));
}

#[test]
fn save_into_no_collection_keeps_item() {
    let mut db = Database::new();
    db.save_content("lonely", Role::User, 1, "x", &[]).unwrap();
    assert_eq!(db.get_database_stats(), (1, 0, 0, 0));
    assert!(db.load_chat_messages().is_empty());
}

fn row(id: &str, content: &str, t: i64, chat: bool) -> ContentItem {
    ContentItem {
        external_id: id.to_string(),
        content: content.to_string(),
        origin: Role::User,
        created_at_unix: t,
        display_time: String::new(),
        in_chat: chat,
        in_digest: false,
        in_longterm: false,
    }
}

#[test]
fn restore_items() {
    let mut db = Database::new();
    assert_eq!(db.restore_item(row("b", "second", 2, true)), Ok(()));
    assert_eq!(db.restore_item(row("a", "first", 1, false)), Ok(()));
    assert_eq!(db.restore_item(row("c", "first", 3, true)), Err(StoreError::DuplicateContent));
    assert_eq!(db.restore_item(row("a", "third", 3, true)), Err(StoreError::DuplicateId));
    assert_eq!(db.len(), 2);
    assert_eq!(db.item(0).external_id, "a");
    assert_eq!(db.get_database_stats(), (2, 1, 0, 0));
}

#[test]
fn collection_names() {
    assert_eq!(Collection::Chat.as_str(), "chat");
    assert_eq!(Collection::Digest.as_str(), "digest");
    assert_eq!(Collection::LongTerm.as_str(), "longterm");
    assert_eq!(Role::from_name("user"), Some(Role::User));
    assert_eq!(Role::from_name("assistant"), Some(Role::Assistant));
    assert_eq!(Role::from_name("system"), None);
    assert_eq!(Role::from_name("users"), None);
    assert_eq!(Role::Assistant.as_str(), "assistant");
}
