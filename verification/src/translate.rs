use vstd::prelude::*;

use crate::attachment::{AttachmentV, GeminiAttachment};
use crate::encoding::info_blob;
use crate::encoding::serialize_message_info;
use crate::message::{
    BotError, ContentPart, ContentUnit, MediaRef, MediaV, MsgV, PartV, RawMessage, Role, UnitV,
};

verus! {

/// The primary text of a message: its body, else its caption, else empty.
pub open spec fn primary_text(m: MsgV) -> Seq<char> {
    match m.text {
        Some(t) => t,
        None => match m.caption {
            Some(c) => c,
            None => Seq::<char>::empty(),
        },
    }
}

/// What translating one message yields: the whole contract of
/// [`translate`].
///
/// A message without an author, a service message, and a message of an
/// unsupported media kind are untranslatable. A translatable message gives
/// one content unit: role `Model` when its author is the bot identity, `User`
/// otherwise; first the structured-text blob of author name, author identity,
/// primary text and message identity; then, when its photo resolved into an
/// uploaded attachment, that attachment. When the attachment failed to
/// resolve, the text part alone is kept — unless the message carried no text
/// at all, in which case nothing of it remains and it is untranslatable.
pub open spec fn translate_spec(m: MsgV, me_id: u64, att: Option<AttachmentV>) -> Result<
    UnitV,
    BotError,
> {
    match m.author {
        None => Err(BotError::UntranslatableMessage),
        Some(a) => {
            if !m.common {
                Err(BotError::UntranslatableMessage)
            } else {
                let role = if a.id == me_id {
                    Role::Model
                } else {
                    Role::User
                };
                let text_part = PartV::Text(info_blob(a.name, a.id, primary_text(m), m.id));
                match m.media {
                    MediaV::Plain => Ok(UnitV { role, parts: seq![text_part] }),
                    MediaV::Photo(_) => match att {
                        Some(h) => Ok(
                            UnitV { role, parts: seq![text_part, PartV::Attachment(h)] },
                        ),
                        None => {
                            if primary_text(m).len() == 0 {
                                Err(BotError::UntranslatableMessage)
                            } else {
                                Ok(UnitV { role, parts: seq![text_part] })
                            }
                        },
                    },
                    _ => Err(BotError::UntranslatableMessage),
                }
            }
        },
    }
}

/// Translate one raw message into a role-tagged content unit.
///
/// `attachment` is the outcome of resolving the message's media, handed in by
/// the caller: the uploaded handle on success, nothing on failure or when the
/// message carries no media. The result is exactly what
/// [`translate_spec`] says of the message's value.
pub fn translate(msg: &RawMessage, me_id: u64, attachment: Option<GeminiAttachment>) -> (r: Result<
    ContentUnit,
    BotError,
>)
    ensures
        match r {
            Ok(u) => translate_spec(msg@, me_id, attachment.deep_view()) == Ok::<
                UnitV,
                BotError,
            >(u@),
            Err(e) => translate_spec(msg@, me_id, attachment.deep_view()) == Err::<
                UnitV,
                BotError,
            >(e),
        },
{
    let author = match &msg.author {
        Some(a) => a,
        None => {
            return Err(BotError::UntranslatableMessage);
        },
    };
    if !msg.common {
        return Err(BotError::UntranslatableMessage);
    }
    let role = if author.id == me_id {
        Role::Model
    } else {
        Role::User
    };
    let text: &str = match &msg.text {
        Some(t) => t.as_str(),
        None => match &msg.caption {
            Some(c) => c.as_str(),
            None => "",
        },
    };
    proof {
        reveal_strlit("");
        assert(text@ =~= primary_text(msg@));
    }
    let has_text = text.unicode_len() > 0;
    let blob = serialize_message_info(author.name.as_str(), author.id, text, msg.id);
    let mut parts: Vec<ContentPart> = Vec::new();
    let ghost tp = PartV::Text(info_blob(author.name@, author.id, primary_text(msg@), msg.id));
    parts.push(ContentPart::Text(blob));
    proof {
        assert(parts.deep_view() =~= seq![tp]);
    }
    match &msg.media {
        MediaRef::Plain => Ok(ContentUnit { role, parts }),
        MediaRef::Photo(_) => match attachment {
            Some(h) => {
                let ghost with_text = parts.deep_view();
                let ghost hv = h@;
                parts.push(ContentPart::Attachment(h));
                proof {
                    assert(parts.deep_view() =~= with_text.push(PartV::Attachment(hv)));
                    assert(parts.deep_view() =~= seq![tp, PartV::Attachment(hv)]);
                }
                Ok(ContentUnit { role, parts })
            },
            None => {
                if !has_text {
                    Err(BotError::UntranslatableMessage)
                } else {
                    Ok(ContentUnit { role, parts })
                }
            },
        },
        _ => Err(BotError::UntranslatableMessage),
    }
}

/// Translating a message with no author always fails: nothing can ground the
/// message in a conversation.
pub proof fn lemma_no_author_untranslatable(m: MsgV, me_id: u64, att: Option<AttachmentV>)
    requires
        m.author is None,
    ensures
        translate_spec(m, me_id, att) == Err::<UnitV, BotError>(BotError::UntranslatableMessage),
{
}

/// A message authored by the bot identity translates, whenever it translates
/// at all, to a content unit with role `Model`.
pub proof fn lemma_bot_author_role_model(m: MsgV, me_id: u64, att: Option<AttachmentV>)
    requires
        match m.author {
            Some(a) => a.id == me_id,
            None => false,
        },
        translate_spec(m, me_id, att) is Ok,
    ensures
        match translate_spec(m, me_id, att) {
            Ok(u) => u.role == Role::Model,
            Err(_) => false,
        },
{
}

/// A message authored by anyone but the bot identity translates, whenever it
/// translates at all, to a content unit with role `User`.
pub proof fn lemma_other_author_role_user(m: MsgV, me_id: u64, att: Option<AttachmentV>)
    requires
        match m.author {
            Some(a) => a.id != me_id,
            None => false,
        },
        translate_spec(m, me_id, att) is Ok,
    ensures
        match translate_spec(m, me_id, att) {
            Ok(u) => u.role == Role::User,
            Err(_) => false,
        },
{
}

} // verus!
