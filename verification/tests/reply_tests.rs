use gemini_bot::config::{Config, Gemini, Telegram};
use gemini_bot::message::{Author, MediaRef, RawMessage};
use gemini_bot::reply::BotState;

const ME: u64 = 1;

fn config(names: Vec<&str>) -> Config {
    Config {
        telegram: Telegram {
            token: "tok".to_string(),
            cache_size: 10,
            names: names.into_iter().map(|n| n.to_string()).collect(),
        },
        gemini: Gemini {
            token: "tok".to_string(),
            personality: "helpful".to_string(),
        },
    }
}

fn state(names: Vec<&str>) -> BotState {
    BotState::new(&config(names), ME, "mybot").unwrap()
}

fn group_msg(text: Option<&str>, caption: Option<&str>) -> RawMessage {
    RawMessage {
        id: 1,
        chat_id: 1,
        chat_private: false,
        common: true,
        author: Some(Author { id: 7, name: "Alice".to_string() }),
        reply_to_author: None,
        text: text.map(|t| t.to_string()),
        caption: caption.map(|c| c.to_string()),
        media: MediaRef::Plain,
    }
}

#[test]
fn private_chat_always_replies() {
    let st = state(vec!["alice"]);
    let mut m = group_msg(Some("whatever"), None);
    m.chat_private = true;
    assert!(st.should_reply(&m));
}

#[test]
fn private_chat_replies_even_without_text() {
    let st = state(vec![]);
    let mut m = group_msg(None, None);
    m.chat_private = true;
    assert!(st.should_reply(&m));
}

#[test]
fn service_message_never_replies() {
    let st = state(vec!["alice"]);
    let mut m = group_msg(Some("alice"), None);
    m.chat_private = true;
    m.common = false;
    assert!(!st.should_reply(&m));
}

#[test]
fn group_without_trigger_is_silent() {
    let st = state(vec!["rustacean"]);
    let m = group_msg(Some("nothing interesting here"), None);
    assert!(!st.should_reply(&m));
}

#[test]
fn group_trigger_name_matches_case_insensitively() {
    let st = state(vec!["rustacean"]);
    let m = group_msg(Some("hey RUSTACEAN, ping"), None);
    assert!(st.should_reply(&m));
}

#[test]
fn caption_can_carry_the_trigger_name() {
    let st = state(vec!["rustacean"]);
    let m = group_msg(None, Some("a photo for Rustacean"));
    assert!(st.should_reply(&m));
}

#[test]
fn own_username_is_a_trigger_name() {
    let st = state(vec![]);
    let m = group_msg(Some("ask @mybot about it"), None);
    assert!(st.should_reply(&m));
}

#[test]
fn reply_to_the_bot_triggers() {
    let st = state(vec![]);
    let mut m = group_msg(Some("and you?"), None);
    m.reply_to_author = Some(ME);
    assert!(st.should_reply(&m));
}

#[test]
fn reply_to_someone_else_does_not_trigger() {
    let st = state(vec![]);
    let mut m = group_msg(Some("and you?"), None);
    m.reply_to_author = Some(99);
    assert!(!st.should_reply(&m));
}
