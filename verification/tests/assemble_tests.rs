use gemini_bot::assemble::{assemble, attachment_requests, build_window};
use gemini_bot::encoding::parse_message_info;
use gemini_bot::message::{Author, ContentPart, FileRef, MediaRef, RawMessage};

const ME: u64 = 1;

fn text_msg(id: u64, text: &str) -> RawMessage {
    RawMessage {
        id,
        chat_id: 1,
        chat_private: false,
        common: true,
        author: Some(Author { id: 7, name: "Alice".to_string() }),
        reply_to_author: None,
        text: Some(text.to_string()),
        caption: None,
        media: MediaRef::Plain,
    }
}

fn photo_msg(id: u64, caption: Option<&str>, sizes: Vec<FileRef>) -> RawMessage {
    RawMessage {
        id,
        chat_id: 1,
        chat_private: false,
        common: true,
        author: Some(Author { id: 7, name: "Alice".to_string() }),
        reply_to_author: None,
        text: None,
        caption: caption.map(|c| c.to_string()),
        media: MediaRef::Photo(sizes),
    }
}

fn message_ids(units: &[gemini_bot::message::ContentUnit]) -> Vec<u64> {
    units
        .iter()
        .map(|u| match &u.parts[0] {
            ContentPart::Text(t) => parse_message_info(t.as_str()).unwrap().message_id,
            ContentPart::Attachment(_) => panic!("first part must be text"),
        })
        .collect()
}

#[test]
fn failed_translation_is_dropped_and_order_kept() {
    // four cached messages and one trigger; the second message is a photo
    // without a caption whose attachment fails to resolve
    let cached = vec![
        text_msg(1, "a"),
        photo_msg(2, None, vec![]),
        text_msg(3, "c"),
        text_msg(4, "d"),
    ];
    let window = build_window(cached, text_msg(5, "e"));
    let attachments = vec![None, None, None, None, None];
    let units = assemble(&window, ME, &attachments);
    assert_eq!(units.len(), 4);
    assert_eq!(message_ids(&units), vec![1, 3, 4, 5]);
}

#[test]
fn empty_window_assembles_to_nothing() {
    let window: Vec<RawMessage> = Vec::new();
    let attachments = Vec::new();
    assert!(assemble(&window, ME, &attachments).is_empty());
}

#[test]
fn build_window_appends_trigger_last() {
    let window = build_window(vec![text_msg(1, "a")], text_msg(2, "b"));
    assert_eq!(window.len(), 2);
    assert_eq!(window[0].id, 1);
    assert_eq!(window[1].id, 2);
}

fn file(id: &str, size: u32) -> FileRef {
    FileRef { id: id.to_string(), size }
}

#[test]
fn requests_pick_the_largest_variant() {
    let window = vec![photo_msg(1, Some("c"), vec![file("s", 10), file("m", 500), file("l", 90)])];
    let reqs = attachment_requests(&window);
    assert_eq!(reqs.len(), 1);
    assert_eq!(reqs[0].as_ref().unwrap().id, "m");
}

#[test]
fn requests_pick_the_last_variant_on_a_tie() {
    let window = vec![photo_msg(1, None, vec![file("a", 99), file("b", 99), file("c", 10)])];
    let reqs = attachment_requests(&window);
    assert_eq!(reqs[0].as_ref().unwrap().id, "b");
}

#[test]
fn requests_skip_text_messages_and_doomed_messages() {
    let mut no_author = photo_msg(3, None, vec![file("x", 1)]);
    no_author.author = None;
    let window = vec![text_msg(1, "a"), no_author, photo_msg(2, None, vec![])];
    let reqs = attachment_requests(&window);
    assert_eq!(reqs.len(), 3);
    assert!(reqs.iter().all(|r| r.is_none()));
}
