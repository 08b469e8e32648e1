use gemini_bot::attachment::GeminiAttachment;
use gemini_bot::encoding::parse_message_info;
use gemini_bot::message::{Author, BotError, ContentPart, MediaRef, RawMessage, Role};
use gemini_bot::translate::translate;

const ME: u64 = 1;

fn text_msg(author: Option<Author>, text: &str) -> RawMessage {
    RawMessage {
        id: 42,
        chat_id: 1,
        chat_private: false,
        common: true,
        author,
        reply_to_author: None,
        text: Some(text.to_string()),
        caption: None,
        media: MediaRef::Plain,
    }
}

fn alice() -> Option<Author> {
    Some(Author { id: 7, name: "Alice".to_string() })
}

#[test]
fn no_author_is_untranslatable() {
    let r = translate(&text_msg(None, "hello"), ME, None);
    assert_eq!(r.unwrap_err(), BotError::UntranslatableMessage);
}

#[test]
fn service_message_is_untranslatable() {
    let mut m = text_msg(alice(), "hello");
    m.common = false;
    let r = translate(&m, ME, None);
    assert_eq!(r.unwrap_err(), BotError::UntranslatableMessage);
}

#[test]
fn unsupported_media_is_untranslatable() {
    let mut m = text_msg(alice(), "hello");
    m.media = MediaRef::Unsupported;
    let r = translate(&m, ME, None);
    assert_eq!(r.unwrap_err(), BotError::UntranslatableMessage);
}

#[test]
fn alice_text_round_trips() {
    let unit = translate(&text_msg(alice(), "hello world"), ME, None).unwrap();
    assert_eq!(unit.role, Role::User);
    assert_eq!(unit.parts.len(), 1);
    let blob = match &unit.parts[0] {
        ContentPart::Text(t) => t.clone(),
        ContentPart::Attachment(_) => panic!("expected a text part"),
    };
    let info = parse_message_info(blob.as_str()).unwrap();
    assert_eq!(info.user_name, "Alice");
    assert_eq!(info.user_id, 7);
    assert_eq!(info.message_content, "hello world");
    assert_eq!(info.message_id, 42);
}

#[test]
fn bot_author_yields_model_role() {
    let m = text_msg(Some(Author { id: ME, name: "Bot".to_string() }), "hi");
    let unit = translate(&m, ME, None).unwrap();
    assert_eq!(unit.role, Role::Model);
}

fn photo_msg(caption: Option<&str>) -> RawMessage {
    RawMessage {
        id: 5,
        chat_id: 1,
        chat_private: false,
        common: true,
        author: alice(),
        reply_to_author: None,
        text: None,
        caption: caption.map(|c| c.to_string()),
        media: MediaRef::Photo(vec![]),
    }
}

#[test]
fn resolved_attachment_is_appended_after_text() {
    let att = GeminiAttachment {
        uri: "files/abc".to_string(),
        content_type: "image/jpeg".to_string(),
    };
    let unit = translate(&photo_msg(Some("look")), ME, Some(att)).unwrap();
    assert_eq!(unit.parts.len(), 2);
    assert!(matches!(&unit.parts[0], ContentPart::Text(_)));
    match &unit.parts[1] {
        ContentPart::Attachment(a) => {
            assert_eq!(a.uri, "files/abc");
            assert_eq!(a.content_type, "image/jpeg");
        }
        ContentPart::Text(_) => panic!("expected the attachment part"),
    }
}

#[test]
fn failed_attachment_keeps_the_caption() {
    let unit = translate(&photo_msg(Some("look")), ME, None).unwrap();
    assert_eq!(unit.parts.len(), 1);
    assert!(matches!(&unit.parts[0], ContentPart::Text(_)));
}

#[test]
fn failed_attachment_without_text_is_untranslatable() {
    let r = translate(&photo_msg(None), ME, None);
    assert_eq!(r.unwrap_err(), BotError::UntranslatableMessage);
}
