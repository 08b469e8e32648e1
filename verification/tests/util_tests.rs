use gemini_bot::attachment::{build_file_url, file_name_of_path, plan_upload};
use gemini_bot::encoding::{parse_message_info, serialize_message_info, u64_to_dec};
use gemini_bot::message::{BotError, FileRef, MediaRef};
use gemini_bot::util::{media_kind_to_file_meta, render_reply, reply_text, sanitize_text, ReplyPart};

#[test]
fn decimal_writing_is_exact() {
    assert_eq!(u64_to_dec(0), "0");
    assert_eq!(u64_to_dec(7), "7");
    assert_eq!(u64_to_dec(1234567890123), "1234567890123");
    assert_eq!(u64_to_dec(u64::MAX), "18446744073709551615");
}

#[test]
fn blob_writing_is_exact() {
    let blob = serialize_message_info("Alice", 7, "hi", 42);
    assert_eq!(blob, "uid:7;mid:42;name:5:Alice;text:2:hi;");
}

#[test]
fn blob_parses_back() {
    let blob = serialize_message_info("A;b:c", 9000, "tricky;text:1:x;", 3);
    let info = parse_message_info(blob.as_str()).unwrap();
    assert_eq!(info.user_name, "A;b:c");
    assert_eq!(info.user_id, 9000);
    assert_eq!(info.message_content, "tricky;text:1:x;");
    assert_eq!(info.message_id, 3);
}

#[test]
fn garbage_does_not_parse() {
    assert!(parse_message_info("").is_none());
    assert!(parse_message_info("uid:;mid:1;name:0:;text:0:;").is_none());
    assert!(parse_message_info("nonsense").is_none());
    assert!(parse_message_info("uid:1;mid:2;name:5:Alice;text:2:hi").is_none());
    // a count that does not fit in 64 bits
    assert!(parse_message_info("uid:99999999999999999999;mid:1;name:0:;text:0:;").is_none());
}

#[test]
fn sanitize_strips_markup_tags() {
    assert_eq!(sanitize_text("**hi**"), "<strong>hi</strong>");
}

#[test]
fn sanitize_keeps_plain_text() {
    assert_eq!(sanitize_text("hello world"), "hello world");
}

fn file(id: &str, size: u32) -> FileRef {
    FileRef { id: id.to_string(), size }
}

#[test]
fn photo_file_is_the_largest_variant() {
    let media = MediaRef::Photo(vec![file("s", 10), file("l", 500), file("m", 90)]);
    assert_eq!(media_kind_to_file_meta(&media).unwrap().id, "l");
}

#[test]
fn photo_tie_takes_the_last_variant() {
    let media = MediaRef::Photo(vec![file("a", 7), file("b", 7)]);
    assert_eq!(media_kind_to_file_meta(&media).unwrap().id, "b");
}

#[test]
fn photo_without_variants_fails_resolution() {
    let media = MediaRef::Photo(vec![]);
    assert_eq!(media_kind_to_file_meta(&media).unwrap_err(), BotError::AttachmentResolutionFailed);
}

#[test]
fn animation_file_is_its_own() {
    let media = MediaRef::Animation(file("anim", 3));
    assert_eq!(media_kind_to_file_meta(&media).unwrap().id, "anim");
}

#[test]
fn plain_media_has_no_file() {
    assert_eq!(
        media_kind_to_file_meta(&MediaRef::Plain).unwrap_err(),
        BotError::UntranslatableMessage
    );
}

#[test]
fn single_text_answer_passes_through() {
    let out = render_reply(Ok(vec![ReplyPart::Text { text: "fine".to_string(), thought: false }]));
    assert_eq!(out, "fine");
}

#[test]
fn odd_answers_become_the_issue_notice() {
    let expected = "```\nissue\n```\nReport this issue to the admins";
    assert_eq!(render_reply(Ok(vec![])), expected);
    assert_eq!(render_reply(Ok(vec![ReplyPart::Other])), expected);
    assert_eq!(
        render_reply(Ok(vec![ReplyPart::Text { text: "t".to_string(), thought: true }])),
        expected
    );
    assert_eq!(
        render_reply(Ok(vec![
            ReplyPart::Text { text: "a".to_string(), thought: false },
            ReplyPart::Other,
        ])),
        expected
    );
}

#[test]
fn reply_text_renders_and_sanitizes() {
    let out = reply_text(Ok(vec![ReplyPart::Text { text: "all **good**".to_string(), thought: false }]));
    assert_eq!(out, "all <strong>good</strong>");
}

#[test]
fn backend_failure_is_quoted_to_the_user() {
    let out = render_reply(Err("rate limited".to_string()));
    assert_eq!(out, "```\nrate limited\n```\nReport this issue to the admins");
}

#[test]
fn file_url_is_built_from_token_and_path() {
    assert_eq!(
        build_file_url("tok123", "photos/p.jpg"),
        "https://api.telegram.org/file/bottok123/photos/p.jpg"
    );
}

#[test]
fn file_name_is_the_last_component() {
    assert_eq!(file_name_of_path("https://host/a/b/c.jpg"), "c.jpg");
    assert_eq!(file_name_of_path("plain"), "plain");
    assert_eq!(file_name_of_path("ends/with/"), "");
}

#[test]
fn upload_plan_infers_the_content_type() {
    let plan = plan_upload("https://host/dir/photo.jpg".to_string()).unwrap();
    assert_eq!(plan.mime, "image/jpeg");
    assert_eq!(plan.file_name, "photo.jpg");
    assert_eq!(plan.url, "https://host/dir/photo.jpg");
}

#[test]
fn unknown_extension_fails_the_plan() {
    let r = plan_upload("https://host/dir/mystery.zzz9".to_string());
    assert_eq!(r.unwrap_err(), BotError::AttachmentResolutionFailed);
}
