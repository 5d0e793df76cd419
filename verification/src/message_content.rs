use vstd::prelude::*;

use crate::message_text::FormattedBody;

verus! {

/// The content of a room message, by its type: the parts that are shown.
pub enum MessageBody {
    Audio,
    Emote { body: String, formatted: Option<FormattedBody> },
    File { body: String, filename: Option<String>, mimetype: Option<String> },
    Image { body: String },
    Location,
    Notice { body: String, formatted: Option<FormattedBody> },
    ServerNotice { body: String },
    Text { body: String, formatted: Option<FormattedBody> },
    Video,
    VerificationRequest,
    /// A message type this client does not know.
    Other,
}

/// The content of a message event, as the room history shows it.
pub enum MessageContent {
    /// A room message, with the new content when it replaces another one.
    RoomMessage { msgtype: MessageBody, replacement: Option<MessageBody> },
    Sticker,
    RoomEncrypted,
    RoomRedaction,
    /// Any other event, or one without content.
    Other,
}

/// The name shown for a file.
pub enum FileName {
    /// A name the message gives.
    Named(String),
    /// The default name for files of the given MIME type.
    ForMime(Option<String>),
}

/// A fixed text shown in place of a message.
pub enum PlainText {
    /// The body of the message, as it is.
    Body(String),
    /// "Identity verification was started"
    VerificationStarted,
    /// "Unsupported event"
    Unsupported,
    /// "Fractal couldn't decrypt this message."
    Undecryptable,
    /// "This message was removed."
    Removed,
}

/// The widget that shows a message's content, and what it is given.
pub enum ContentView {
    /// The content is left as it is: audio and location messages are not
    /// shown yet.
    Unchanged,
    /// A text widget showing an emote.
    Emote { formatted: Option<FormattedBody>, body: String },
    /// A file widget.
    File { filename: FileName, compact: bool },
    /// A media widget showing an image.
    Image { compact: bool },
    /// A media widget showing a video.
    Video { compact: bool },
    /// A media widget showing a sticker.
    Sticker { compact: bool },
    /// A text widget showing a text that may have markup.
    Markup { formatted: Option<FormattedBody>, body: String },
    /// A text widget showing a plain text.
    Text(PlainText),
}

/// The name shown for a file: its file name, or else its body, when not
/// empty; or else the default name for its MIME type.
pub open spec fn file_name(body: String, filename: Option<String>, mimetype: Option<String>) -> FileName {
    match filename {
        Some(f) if f@.len() > 0 => FileName::Named(f),
        _ => if body@.len() > 0 {
            FileName::Named(body)
        } else {
            FileName::ForMime(mimetype)
        },
    }
}

/// How a room message of type `m` is shown.
pub open spec fn message_view(m: MessageBody, compact: bool) -> ContentView {
    match m {
        MessageBody::Audio => ContentView::Unchanged,
        MessageBody::Emote { body, formatted } => ContentView::Emote { formatted, body },
        MessageBody::File { body, filename, mimetype } => ContentView::File {
            filename: file_name(body, filename, mimetype),
            compact,
        },
        MessageBody::Image { .. } => ContentView::Image { compact },
        MessageBody::Location => ContentView::Unchanged,
        MessageBody::Notice { body, formatted } => ContentView::Markup { formatted, body },
        MessageBody::ServerNotice { body } => ContentView::Text(PlainText::Body(body)),
        MessageBody::Text { body, formatted } => ContentView::Markup { formatted, body },
        MessageBody::Video => ContentView::Video { compact },
        MessageBody::VerificationRequest => ContentView::Text(PlainText::VerificationStarted),
        MessageBody::Other => ContentView::Text(PlainText::Unsupported),
    }
}

/// How the content `c` is shown; `compact` asks for a smaller format without
/// interactions. A replacement is shown by its new content.
pub open spec fn content_view(c: MessageContent, compact: bool) -> ContentView {
    match c {
        MessageContent::RoomMessage { msgtype, replacement } => match replacement {
            Some(new_content) => message_view(new_content, compact),
            None => message_view(msgtype, compact),
        },
        MessageContent::Sticker => ContentView::Sticker { compact },
        MessageContent::RoomEncrypted => ContentView::Text(PlainText::Undecryptable),
        MessageContent::RoomRedaction => ContentView::Text(PlainText::Removed),
        MessageContent::Other => ContentView::Text(PlainText::Unsupported),
    }
}

fn file_name_of(body: String, filename: Option<String>, mimetype: Option<String>) -> (n: FileName)
    ensures
        n == file_name(body, filename, mimetype),
{
    if let Some(f) = &filename {
        if !f.as_str().is_empty() {
            return FileName::Named(f.clone());
        }
    }
    if !body.as_str().is_empty() {
        FileName::Named(body)
    } else {
        FileName::ForMime(mimetype)
    }
}

fn message_view_of(m: MessageBody, compact: bool) -> (v: ContentView)
    ensures
        v == message_view(m, compact),
{
    match m {
        MessageBody::Audio => ContentView::Unchanged,
        MessageBody::Emote { body, formatted } => ContentView::Emote { formatted, body },
        MessageBody::File { body, filename, mimetype } => ContentView::File {
            filename: file_name_of(body, filename, mimetype),
            compact,
        },
        MessageBody::Image { .. } => ContentView::Image { compact },
        MessageBody::Location => ContentView::Unchanged,
        MessageBody::Notice { body, formatted } => ContentView::Markup { formatted, body },
        MessageBody::ServerNotice { body } => ContentView::Text(PlainText::Body(body)),
        MessageBody::Text { body, formatted } => ContentView::Markup { formatted, body },
        MessageBody::Video => ContentView::Video { compact },
        MessageBody::VerificationRequest => ContentView::Text(PlainText::VerificationStarted),
        MessageBody::Other => ContentView::Text(PlainText::Unsupported),
    }
}

/// How the content of an event is shown.
///
/// If `compact` is true, the content should appear in a smaller format without
/// interactions, if possible.
pub fn build_content(content: MessageContent, compact: bool) -> (v: ContentView)
    ensures
        v == content_view(content, compact),
{
    match content {
        MessageContent::RoomMessage { msgtype, replacement } => match replacement {
            Some(new_content) => message_view_of(new_content, compact),
            None => message_view_of(msgtype, compact),
        },
        MessageContent::Sticker => ContentView::Sticker { compact },
        MessageContent::RoomEncrypted => ContentView::Text(PlainText::Undecryptable),
        MessageContent::RoomRedaction => ContentView::Text(PlainText::Removed),
        MessageContent::Other => ContentView::Text(PlainText::Unsupported),
    }
}

/// The content of a message row: the message alone, or a reply under the
/// message it replies to.
pub enum RowContent {
    Single(ContentView),
    Reply { related: ContentView, content: ContentView },
}

/// How a row shows a message: a reply whose replied-to event was found shows
/// that event in compact form above its own content; anything else shows its
/// own content.
pub open spec fn row_content_view(content: MessageContent, related: Option<MessageContent>) -> RowContent {
    match related {
        Some(r) => RowContent::Reply { related: content_view(r, true), content: content_view(content, false) },
        None => RowContent::Single(content_view(content, false)),
    }
}

/// The content of the row of a message `content`; `related` is the content of
/// the event it replies to, where it is a reply and that event was found.
pub fn update_content(content: MessageContent, related: Option<MessageContent>) -> (r: RowContent)
    ensures
        r == row_content_view(content, related),
{
    match related {
        Some(rel) => {
            let related = build_content(rel, true);
            let content = build_content(content, false);
            RowContent::Reply { related, content }
        },
        None => RowContent::Single(build_content(content, false)),
    }
}

/// The name under which the media of a file or image message is fetched: a
/// file's own name, or its body where it names none; an image's body.
pub open spec fn media_name(m: MessageBody) -> Seq<char> {
    match m {
        MessageBody::File { body, filename, .. } => match filename {
            Some(f) => f@,
            None => body@,
        },
        MessageBody::Image { body } => body@,
        _ => Seq::empty(),
    }
}

/// The name under which the media of a file or image message is fetched.
/// Only file and image messages have media to fetch.
pub fn media_file_name(m: &MessageBody) -> (name: String)
    requires
        m is File || m is Image,
    ensures
        name@ == media_name(*m),
{
    match m {
        MessageBody::File { body, filename, .. } => match filename {
            Some(f) => f.clone(),
            None => body.clone(),
        },
        MessageBody::Image { body } => body.clone(),
        _ => String::new(),
    }
}

/// How each kind of room message is shown, when no edit replaces it: an
/// emote as an emote, with its body and formatted body, so that the sender's
/// name comes before it; a text or a notice as text with its markup; a
/// server notice as its plain body; a file by its name; images, videos and
/// stickers in a media widget; a verification request by a fixed sentence;
/// audio and locations are left as they are; an unknown type is
/// "unsupported". The compact form only changes what media and files show.
pub proof fn lemma_message_kinds_shown(body: String, formatted: Option<FormattedBody>, compact: bool)
    ensures
        content_view(MessageContent::RoomMessage { msgtype: MessageBody::Emote { body, formatted }, replacement: None }, compact)
            == (ContentView::Emote { formatted, body }),
        content_view(MessageContent::RoomMessage { msgtype: MessageBody::Text { body, formatted }, replacement: None }, compact)
            == (ContentView::Markup { formatted, body }),
        content_view(MessageContent::RoomMessage { msgtype: MessageBody::Notice { body, formatted }, replacement: None }, compact)
            == (ContentView::Markup { formatted, body }),
        content_view(MessageContent::RoomMessage { msgtype: MessageBody::ServerNotice { body }, replacement: None }, compact)
            == ContentView::Text(PlainText::Body(body)),
        content_view(MessageContent::RoomMessage { msgtype: MessageBody::Image { body }, replacement: None }, compact)
            == (ContentView::Image { compact }),
        content_view(MessageContent::RoomMessage { msgtype: MessageBody::Video, replacement: None }, compact)
            == (ContentView::Video { compact }),
        content_view(MessageContent::RoomMessage { msgtype: MessageBody::Audio, replacement: None }, compact)
            == ContentView::Unchanged,
        content_view(MessageContent::RoomMessage { msgtype: MessageBody::Location, replacement: None }, compact)
            == ContentView::Unchanged,
        content_view(MessageContent::RoomMessage { msgtype: MessageBody::VerificationRequest, replacement: None }, compact)
            == ContentView::Text(PlainText::VerificationStarted),
        content_view(MessageContent::RoomMessage { msgtype: MessageBody::Other, replacement: None }, compact)
            == ContentView::Text(PlainText::Unsupported),
        content_view(MessageContent::Sticker, compact) == (ContentView::Sticker { compact }),
        content_view(MessageContent::RoomEncrypted, compact) == ContentView::Text(PlainText::Undecryptable),
        content_view(MessageContent::RoomRedaction, compact) == ContentView::Text(PlainText::Removed),
        content_view(MessageContent::Other, compact) == ContentView::Text(PlainText::Unsupported),
{
}

/// An emote is always shown as an emote, never as plain text: with its body
/// and formatted body as they are, so that the sender's name can stand in
/// bold before it.
pub proof fn lemma_emote_shown_as_emote(m: MessageBody, compact: bool)
    requires
        m is Emote,
    ensures
        content_view(MessageContent::RoomMessage { msgtype: m, replacement: None }, compact) matches ContentView::Emote {
            formatted,
            body,
        } && m matches MessageBody::Emote { body: b, formatted: f } && body == b && formatted == f,
{
}

/// An edited message is shown by its new content, whatever the old one was.
pub proof fn lemma_edit_shows_new_content(old: MessageBody, new: MessageBody, compact: bool)
    ensures
        content_view(MessageContent::RoomMessage { msgtype: old, replacement: Some(new) }, compact) == content_view(
            MessageContent::RoomMessage { msgtype: new, replacement: None },
            compact,
        ),
{
}

/// A file is shown by its own name when it has a non-empty one, else by its
/// body when that is not empty, else by the name for its MIME type.
pub proof fn lemma_file_name_shown(body: String, filename: Option<String>, mimetype: Option<String>, compact: bool)
    ensures
        content_view(MessageContent::RoomMessage { msgtype: MessageBody::File { body, filename, mimetype }, replacement: None }, compact)
            == (ContentView::File {
            filename: match filename {
                Some(f) if f@.len() > 0 => FileName::Named(f),
                _ => if body@.len() > 0 { FileName::Named(body) } else { FileName::ForMime(mimetype) },
            },
            compact,
        }),
{
}

} // verus!
