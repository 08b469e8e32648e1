use vstd::prelude::*;

use crate::attachment::{AttachmentV, GeminiAttachment};

verus! {

/// The failures this library's pipeline distinguishes.
#[derive(Clone, Copy, Debug, PartialEq, Eq, Structural)]
pub enum BotError {
    /// The message has no author, is of an unsupported kind, or nothing of it
    /// can be translated; it is dropped from the history window.
    UntranslatableMessage,
    /// A media attachment could not be resolved into a remote handle.
    AttachmentResolutionFailed,
}

/// One remote file as the transport layer names it: its stable identifier and
/// its size in bytes.
#[derive(Debug)]
pub struct FileRef {
    pub id: String,
    pub size: u32,
}

/// The mathematical value of a [`FileRef`].
pub struct FileRefV {
    pub id: Seq<char>,
    pub size: u32,
}

impl View for FileRef {
    type V = FileRefV;

    open spec fn view(&self) -> FileRefV {
        FileRefV { id: self.id@, size: self.size }
    }
}

impl DeepView for FileRef {
    type V = FileRefV;

    open spec fn deep_view(&self) -> FileRefV {
        self.view()
    }
}

impl Clone for FileRef {
    fn clone(&self) -> (res: Self)
        ensures
            res@ == self@,
    {
        FileRef { id: self.id.clone(), size: self.size }
    }
}

/// The author of a message: the transport-level identity and a display name.
pub struct Author {
    pub id: u64,
    pub name: String,
}

/// The mathematical value of an [`Author`].
pub struct AuthorV {
    pub id: u64,
    pub name: Seq<char>,
}

impl View for Author {
    type V = AuthorV;

    open spec fn view(&self) -> AuthorV {
        AuthorV { id: self.id, name: self.name@ }
    }
}

impl Clone for Author {
    fn clone(&self) -> (res: Self)
        ensures
            res@ == self@,
    {
        Author { id: self.id, name: self.name.clone() }
    }
}

/// The media carried by one raw message: none (plain text), one photo in
/// several resolutions of the same picture, one animation, or some other,
/// unsupported kind (video, sticker, voice and the like).
pub enum MediaRef {
    Plain,
    Photo(Vec<FileRef>),
    Animation(FileRef),
    Unsupported,
}

/// The mathematical value of a [`MediaRef`].
pub enum MediaV {
    Plain,
    Photo(Seq<FileRefV>),
    Animation(FileRefV),
    Unsupported,
}

impl View for MediaRef {
    type V = MediaV;

    open spec fn view(&self) -> MediaV {
        match self {
            MediaRef::Plain => MediaV::Plain,
            MediaRef::Photo(sizes) => MediaV::Photo(sizes.deep_view()),
            MediaRef::Animation(file) => MediaV::Animation(file@),
            MediaRef::Unsupported => MediaV::Unsupported,
        }
    }
}

impl Clone for MediaRef {
    fn clone(&self) -> (res: Self)
        ensures
            res@ == self@,
    {
        match self {
            MediaRef::Plain => MediaRef::Plain,
            MediaRef::Photo(sizes) => {
                let copy = sizes.clone();
                proof {
                    assert(copy.deep_view() =~= sizes.deep_view());
                }
                MediaRef::Photo(copy)
            },
            MediaRef::Animation(file) => MediaRef::Animation(file.clone()),
            MediaRef::Unsupported => MediaRef::Unsupported,
        }
    }
}

/// One raw chat message, modelled as the immutable snapshot the history store
/// keeps: identity, conversation, kind flags, author, body text, caption and
/// media reference.
pub struct RawMessage {
    /// The message identity within its conversation.
    pub id: u64,
    /// The conversation this message belongs to.
    pub chat_id: i64,
    /// Whether the conversation is a private one-to-one chat.
    pub chat_private: bool,
    /// Whether this is a common user message rather than a service event.
    pub common: bool,
    /// The author; absent for system or anonymous messages.
    pub author: Option<Author>,
    /// The author identity of the message this one replies to, if any.
    pub reply_to_author: Option<u64>,
    /// The textual body of a plain-text message.
    pub text: Option<String>,
    /// The caption of a media message.
    pub caption: Option<String>,
    /// The media reference, if media is present.
    pub media: MediaRef,
}

/// The mathematical value of a [`RawMessage`].
pub struct MsgV {
    pub id: u64,
    pub chat_id: i64,
    pub chat_private: bool,
    pub common: bool,
    pub author: Option<AuthorV>,
    pub reply_to_author: Option<u64>,
    pub text: Option<Seq<char>>,
    pub caption: Option<Seq<char>>,
    pub media: MediaV,
}

impl View for RawMessage {
    type V = MsgV;

    open spec fn view(&self) -> MsgV {
        MsgV {
            id: self.id,
            chat_id: self.chat_id,
            chat_private: self.chat_private,
            common: self.common,
            author: match self.author {
                Some(a) => Some(a@),
                None => None,
            },
            reply_to_author: self.reply_to_author,
            text: match self.text {
                Some(t) => Some(t@),
                None => None,
            },
            caption: match self.caption {
                Some(c) => Some(c@),
                None => None,
            },
            media: self.media@,
        }
    }
}

impl DeepView for RawMessage {
    type V = MsgV;

    open spec fn deep_view(&self) -> MsgV {
        self.view()
    }
}

impl Clone for RawMessage {
    fn clone(&self) -> (res: Self)
        ensures
            res@ == self@,
    {
        RawMessage {
            id: self.id,
            chat_id: self.chat_id,
            chat_private: self.chat_private,
            common: self.common,
            author: match &self.author {
                Some(a) => Some(a.clone()),
                None => None,
            },
            reply_to_author: self.reply_to_author,
            text: match &self.text {
                Some(t) => Some(t.clone()),
                None => None,
            },
            caption: match &self.caption {
                Some(c) => Some(c.clone()),
                None => None,
            },
            media: self.media.clone(),
        }
    }
}

/// The role a translated message carries in the backend request: what the
/// bot's own identity wrote is `Model`, everything else is `User`.
#[derive(Clone, Copy, Debug, PartialEq, Eq, Structural)]
pub enum Role {
    User,
    Model,
}

/// One part of a content unit: the serialized structured-text blob, or an
/// uploaded attachment.
#[derive(Debug)]
pub enum ContentPart {
    Text(String),
    Attachment(GeminiAttachment),
}

/// The mathematical value of a [`ContentPart`].
pub enum PartV {
    Text(Seq<char>),
    Attachment(AttachmentV),
}

impl View for ContentPart {
    type V = PartV;

    open spec fn view(&self) -> PartV {
        match self {
            ContentPart::Text(t) => PartV::Text(t@),
            ContentPart::Attachment(a) => PartV::Attachment(a@),
        }
    }
}

impl DeepView for ContentPart {
    type V = PartV;

    open spec fn deep_view(&self) -> PartV {
        self.view()
    }
}

/// The translated form of one raw message: a role tag and the ordered parts
/// handed to the backend.
#[derive(Debug)]
pub struct ContentUnit {
    pub role: Role,
    pub parts: Vec<ContentPart>,
}

/// The mathematical value of a [`ContentUnit`].
pub struct UnitV {
    pub role: Role,
    pub parts: Seq<PartV>,
}

impl View for ContentUnit {
    type V = UnitV;

    open spec fn view(&self) -> UnitV {
        UnitV { role: self.role, parts: self.parts.deep_view() }
    }
}

impl DeepView for ContentUnit {
    type V = UnitV;

    open spec fn deep_view(&self) -> UnitV {
        self.view()
    }
}

} // verus!
