use gemini_bot::message::{Author, MediaRef, RawMessage};
use gemini_bot::msg_cache::MessageCache;

fn msg(id: u64, chat: i64) -> RawMessage {
    RawMessage {
        id,
        chat_id: chat,
        chat_private: false,
        common: true,
        author: Some(Author { id: 7, name: "Alice".to_string() }),
        reply_to_author: None,
        text: Some(format!("m{}", id)),
        caption: None,
        media: MediaRef::Plain,
    }
}

#[test]
fn fifo_keeps_last_n() {
    let mut cache = MessageCache::new(2);
    for id in 1..=5u64 {
        cache.add(msg(id, 1));
    }
    let got = cache.messages(1);
    assert_eq!(got.len(), 2);
    assert_eq!(got[0].id, 4);
    assert_eq!(got[1].id, 5);
}

#[test]
fn fifo_order_is_append_order() {
    let mut cache = MessageCache::new(10);
    for id in [3u64, 1, 2] {
        cache.add(msg(id, 5));
    }
    let got = cache.messages(5);
    let ids: Vec<u64> = got.iter().map(|m| m.id).collect();
    assert_eq!(ids, vec![3, 1, 2]);
}

#[test]
fn capacity_zero_is_always_empty() {
    let mut cache = MessageCache::new(0);
    for id in 1..=4u64 {
        cache.add(msg(id, 1));
    }
    assert!(cache.messages(1).is_empty());
}

#[test]
fn unknown_conversation_is_empty() {
    let cache = MessageCache::new(3);
    assert!(cache.messages(42).is_empty());
}

#[test]
fn reading_does_not_create_a_buffer() {
    let mut cache = MessageCache::new(2);
    assert!(cache.messages(9).is_empty());
    cache.add(msg(1, 1));
    assert!(cache.messages(9).is_empty());
}

#[test]
fn conversations_do_not_cross_contaminate() {
    let mut cache = MessageCache::new(4);
    cache.add(msg(1, 100));
    assert!(cache.messages(200).is_empty());
    cache.add(msg(2, 200));
    cache.add(msg(3, 100));
    let a = cache.messages(100);
    let b = cache.messages(200);
    assert_eq!(a.iter().map(|m| m.id).collect::<Vec<_>>(), vec![1, 3]);
    assert_eq!(b.iter().map(|m| m.id).collect::<Vec<_>>(), vec![2]);
}
