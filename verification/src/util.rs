use vstd::prelude::*;

use crate::assemble::best_variant;
use crate::message::{BotError, FileRef, FileRefV, MediaRef, MediaV};

verus! {

/// The HTML rendering `markdown::to_html` gives a text: a function of the
/// text alone.
pub uninterp spec fn html_of(s: Seq<char>) -> Seq<char>;

/// Relies on `markdown::to_html`: renders the text as HTML, depending on the
/// text alone.
#[verifier::external_body]
fn md_to_html(s: &str) -> (r: String)
    ensures
        r@ == html_of(s@),
{
    markdown::to_html(s)
}

/// The text with every occurrence of the pattern removed, leftmost first and
/// non-overlapping.
pub open spec fn remove_all(s: Seq<char>, pat: Seq<char>) -> Seq<char>
    decreases s.len()
        when pat.len() >= 1
{
    if s.len() < pat.len() {
        s
    } else if s.take(pat.len() as int) == pat {
        remove_all(s.skip(pat.len() as int), pat)
    } else {
        s.take(1) + remove_all(s.skip(1), pat)
    }
}

/// Relies on `str::replace` with an empty replacement: every non-overlapping
/// occurrence of the pattern, leftmost first, is removed.
#[verifier::external_body]
fn remove_pattern(s: &str, pat: &str) -> (r: String)
    requires
        pat@.len() >= 1,
    ensures
        r@ == remove_all(s@, pat@),
{
    s.replace(pat, "")
}

/// The sanitized form of a reply: its HTML rendering with the paragraph,
/// line-break and list tags the transport cannot display removed.
pub open spec fn sanitize_spec(s: Seq<char>) -> Seq<char> {
    let h0 = html_of(s);
    let h1 = remove_all(h0, "<p>"@);
    let h2 = remove_all(h1, "</p>"@);
    let h3 = remove_all(h2, "<br />"@);
    let h4 = remove_all(h3, "<li>"@);
    let h5 = remove_all(h4, "</li>"@);
    let h6 = remove_all(h5, "<ol>"@);
    remove_all(h6, "</ol>"@)
}

/// Render a reply as HTML and strip the tags the transport cannot display.
pub fn sanitize_text(s: &str) -> (r: String)
    ensures
        r@ == sanitize_spec(s@),
{
    proof {
        reveal_strlit("<p>");
        reveal_strlit("</p>");
        reveal_strlit("<br />");
        reveal_strlit("<li>");
        reveal_strlit("</li>");
        reveal_strlit("<ol>");
        reveal_strlit("</ol>");
    }
    let h = md_to_html(s);
    let h = remove_pattern(h.as_str(), "<p>");
    let h = remove_pattern(h.as_str(), "</p>");
    let h = remove_pattern(h.as_str(), "<br />");
    let h = remove_pattern(h.as_str(), "<li>");
    let h = remove_pattern(h.as_str(), "</li>");
    let h = remove_pattern(h.as_str(), "<ol>");
    let h = remove_pattern(h.as_str(), "</ol>");
    h
}

/// The remote file a media reference points at: the best-quality photo
/// variant (maximal byte size), or the animation's file; nothing for other
/// kinds.
pub open spec fn file_meta_spec(m: MediaV) -> Option<FileRefV> {
    match m {
        MediaV::Photo(vs) => if vs.len() > 0 {
            Some(best_variant(vs))
        } else {
            None
        },
        MediaV::Animation(f) => Some(f),
        _ => None,
    }
}

/// Select the remote file of one media reference: the best-quality variant of
/// a photo, or the animation's own file. Other kinds are unsupported; a photo
/// without variants cannot be resolved.
pub fn media_kind_to_file_meta(media_kind: &MediaRef) -> (r: Result<FileRef, BotError>)
    ensures
        (match r {
            Ok(f) => file_meta_spec(media_kind@) == Some(f@),
            Err(e) => {
                &&& file_meta_spec(media_kind@) is None
                &&& e == (match media_kind@ {
                    MediaV::Photo(_) => BotError::AttachmentResolutionFailed,
                    _ => BotError::UntranslatableMessage,
                })
            },
        }),
{
    match media_kind {
        MediaRef::Photo(vs) => {
            if vs.len() > 0 {
                Ok(crate::assemble::best_variant_of(vs))
            } else {
                Err(BotError::AttachmentResolutionFailed)
            }
        },
        MediaRef::Animation(f) => Ok(f.clone()),
        _ => Err(BotError::UntranslatableMessage),
    }
}

/// One part of the backend's answer, as far as rendering a reply needs it:
/// an ordinary text part, a thought text part, or anything else.
pub enum ReplyPart {
    Text { text: String, thought: bool },
    Other,
}

/// The mathematical value of a [`ReplyPart`].
pub enum ReplyPartV {
    Text { text: Seq<char>, thought: bool },
    Other,
}

impl View for ReplyPart {
    type V = ReplyPartV;

    open spec fn view(&self) -> ReplyPartV {
        match self {
            ReplyPart::Text { text, thought } => ReplyPartV::Text {
                text: text@,
                thought: *thought,
            },
            ReplyPart::Other => ReplyPartV::Other,
        }
    }
}

impl DeepView for ReplyPart {
    type V = ReplyPartV;

    open spec fn deep_view(&self) -> ReplyPartV {
        self.view()
    }
}

/// The fixed reply when the backend answers with anything but a single plain
/// text part.
pub open spec fn issue_text() -> Seq<char> {
    "```\nissue\n```\nReport this issue to the admins"@
}

/// What the raw reply to the user is, before sanitizing: the backend's single
/// plain text part; a fixed notice when the answer has any other shape; the
/// quoted error when the request failed. The failure is surfaced to the user,
/// never swallowed.
pub open spec fn render_reply_spec(outcome: Result<Seq<ReplyPartV>, Seq<char>>) -> Seq<char> {
    match outcome {
        Ok(parts) => {
            if parts.len() == 1 {
                match parts[0] {
                    ReplyPartV::Text { text, thought } => if !thought {
                        text
                    } else {
                        issue_text()
                    },
                    _ => issue_text(),
                }
            } else {
                issue_text()
            }
        },
        Err(e) => "```\n"@ + e + "\n```\nReport this issue to the admins"@,
    }
}

/// Turn the backend's answer — or its failure — into the raw reply text.
pub fn render_reply(outcome: Result<Vec<ReplyPart>, String>) -> (r: String)
    ensures
        r@ == render_reply_spec(match outcome {
            Ok(parts) => Ok(parts.deep_view()),
            Err(e) => Err(e@),
        }),
{
    match outcome {
        Ok(parts) => {
            if parts.len() == 1 {
                match &parts[0] {
                    ReplyPart::Text { text, thought } => {
                        if !*thought {
                            proof {
                                assert(parts.deep_view()[0] == parts@[0].deep_view());
                            }
                            text.clone()
                        } else {
                            String::from_str("```\nissue\n```\nReport this issue to the admins")
                        }
                    },
                    ReplyPart::Other => String::from_str(
                        "```\nissue\n```\nReport this issue to the admins",
                    ),
                }
            } else {
                String::from_str("```\nissue\n```\nReport this issue to the admins")
            }
        },
        Err(e) => {
            let mut r = String::new();
            r.append("```\n");
            r.append(e.as_str());
            r.append("\n```\nReport this issue to the admins");
            proof {
                assert(r@ =~= "```\n"@ + e@ + "\n```\nReport this issue to the admins"@);
            }
            r
        },
    }
}

/// The reply text sent to the user for one backend answer: rendered, then
/// sanitized.
pub fn reply_text(outcome: Result<Vec<ReplyPart>, String>) -> (r: String)
    ensures
        r@ == sanitize_spec(render_reply_spec(match outcome {
            Ok(parts) => Ok(parts.deep_view()),
            Err(e) => Err(e@),
        })),
{
    let raw = render_reply(outcome);
    sanitize_text(raw.as_str())
}

} // verus!
