use vstd::prelude::*;

verus! {

/// The kind of a room message.
#[derive(Clone, Copy, Debug, PartialEq, Eq, Structural)]
pub enum MessageType {
    Audio,
    Emote,
    File,
    Image,
    Location,
    Notice,
    ServerNotice,
    Text,
    Video,
    VerificationRequest,
    Other,
}

/// How a room message relates to another event, by that event's id.
#[derive(Clone, Copy, Debug, PartialEq, Eq, Structural)]
pub enum Relation {
    Reply(u64),
    Replacement(u64),
    Other,
}

/// The types of message events.
#[derive(Clone, Copy, Debug, PartialEq, Eq, Structural)]
pub enum MessageEventType {
    CallAnswer,
    CallInvite,
    CallHangup,
    CallCandidates,
    KeyVerificationReady,
    KeyVerificationStart,
    KeyVerificationCancel,
    KeyVerificationAccept,
    KeyVerificationKey,
    KeyVerificationMac,
    KeyVerificationDone,
    Reaction,
    RoomEncrypted,
    RoomMessage,
    RoomMessageFeedback,
    RoomRedaction,
    Sticker,
    Other,
}

/// The types of state events.
#[derive(Clone, Copy, Debug, PartialEq, Eq, Structural)]
pub enum StateEventType {
    PolicyRuleRoom,
    PolicyRuleServer,
    PolicyRuleUser,
    RoomAliases,
    RoomAvatar,
    RoomCanonicalAlias,
    RoomCreate,
    RoomEncryption,
    RoomJoinRules,
    RoomMember,
    RoomName,
    RoomPinnedEvents,
    RoomPowerLevels,
    RoomServerAcl,
    RoomThirdPartyInvite,
    RoomTombstone,
    RoomTopic,
    Other,
}

/// A message event with the parts of its content that the room history reads.
#[allow(inconsistent_fields)]
#[derive(Debug)]
pub enum MessageEvent {
    RoomMessage { msgtype: MessageType, relates_to: Option<Relation> },
    /// A reaction with the key `key` to the event `relates_to`.
    Reaction { relates_to: u64, key: String },
    /// The redaction of the event `redacts`.
    RoomRedaction { redacts: u64 },
    Sticker,
    RoomEncrypted,
    /// Another message event, of which only the type is read.
    Other(MessageEventType),
}

/// A deserialized room event.
#[derive(Debug)]
pub enum MatrixEvent {
    Message(MessageEvent),
    State(StateEventType),
    RedactedMessage(MessageEventType),
    RedactedState(StateEventType),
}

/// A room event as the timeline holds it.
#[derive(Debug)]
pub struct EventData {
    /// The event's id (ids are given numbers by whoever builds the data).
    pub event_id: u64,
    /// The sending user.
    pub sender: u64,
    /// The time the server received the event, in seconds since the epoch.
    pub timestamp: i64,
    /// The local calendar day of `timestamp`; equal days mean the same date.
    pub day: i64,
    /// The transaction id of an event this session sent.
    pub transaction_id: Option<u64>,
    /// The event itself, `None` when it could not be deserialized.
    pub event: Option<MatrixEvent>,
}

/// The type of a message event.
pub open spec fn message_event_type(m: MessageEvent) -> MessageEventType {
    match m {
        MessageEvent::RoomMessage { .. } => MessageEventType::RoomMessage,
        MessageEvent::Reaction { .. } => MessageEventType::Reaction,
        MessageEvent::RoomRedaction { .. } => MessageEventType::RoomRedaction,
        MessageEvent::Sticker => MessageEventType::Sticker,
        MessageEvent::RoomEncrypted => MessageEventType::RoomEncrypted,
        MessageEvent::Other(t) => t,
    }
}

/// The event that `event` relates to: the redacted event of a redaction, the
/// reacted-to event of a reaction, and the replied-to or replaced event of a
/// room message.
pub open spec fn related_event(event: Option<MatrixEvent>) -> Option<u64> {
    match event {
        Some(MatrixEvent::Message(m)) => match m {
            MessageEvent::RoomRedaction { redacts } => Some(redacts),
            MessageEvent::Reaction { relates_to, .. } => Some(relates_to),
            MessageEvent::RoomMessage { relates_to, .. } => match relates_to {
                Some(Relation::Reply(id)) => Some(id),
                Some(Relation::Replacement(id)) => Some(id),
                _ => None,
            },
            _ => None,
        },
        _ => None,
    }
}

/// Message event types that are never shown in the room history.
pub open spec fn hidden_message_type(t: MessageEventType) -> bool {
    match t {
        MessageEventType::CallAnswer | MessageEventType::CallInvite | MessageEventType::CallHangup
        | MessageEventType::CallCandidates | MessageEventType::KeyVerificationReady
        | MessageEventType::KeyVerificationStart | MessageEventType::KeyVerificationCancel
        | MessageEventType::KeyVerificationAccept | MessageEventType::KeyVerificationKey
        | MessageEventType::KeyVerificationMac | MessageEventType::KeyVerificationDone
        | MessageEventType::RoomMessageFeedback | MessageEventType::RoomRedaction => true,
        _ => false,
    }
}

/// State event types that are never shown in the room history.
pub open spec fn hidden_state_type(t: StateEventType) -> bool {
    match t {
        StateEventType::PolicyRuleRoom | StateEventType::PolicyRuleServer
        | StateEventType::PolicyRuleUser | StateEventType::RoomAliases | StateEventType::RoomAvatar
        | StateEventType::RoomCanonicalAlias | StateEventType::RoomEncryption
        | StateEventType::RoomJoinRules | StateEventType::RoomName
        | StateEventType::RoomPinnedEvents | StateEventType::RoomPowerLevels
        | StateEventType::RoomServerAcl | StateEventType::RoomTopic => true,
        _ => false,
    }
}

/// Whether a room message is a reply.
pub open spec fn is_reply_message(event: Option<MatrixEvent>) -> bool {
    event matches Some(
        MatrixEvent::Message(MessageEvent::RoomMessage { relates_to: Some(Relation::Reply(_)), .. }),
    )
}

/// Whether an event is hidden from the user rather than shown in the room
/// history: related events other than replies, and the hidden types.
pub open spec fn is_hidden(event: Option<MatrixEvent>) -> bool {
    if related_event(event) is Some {
        !is_reply_message(event)
    } else {
        match event {
            Some(MatrixEvent::Message(m)) => hidden_message_type(message_event_type(m)),
            Some(MatrixEvent::State(t)) => hidden_state_type(t),
            Some(MatrixEvent::RedactedMessage(t)) => hidden_message_type(t) || t
                == MessageEventType::Sticker,
            Some(MatrixEvent::RedactedState(t)) => hidden_state_type(t),
            None => false,
        }
    }
}

/// Whether an event may hide its header when it follows an event of the same
/// sender: most room messages, and stickers.
pub open spec fn hides_header(event: Option<MatrixEvent>) -> bool {
    match event {
        Some(MatrixEvent::Message(MessageEvent::RoomMessage { msgtype, .. })) => match msgtype {
            MessageType::Audio | MessageType::File | MessageType::Image | MessageType::Location
            | MessageType::Notice | MessageType::Text | MessageType::Video => true,
            _ => false,
        },
        Some(MatrixEvent::Message(MessageEvent::Sticker)) => true,
        _ => false,
    }
}

/// Whether an event is an image that the media viewer can show.
pub open spec fn shows_media(event: Option<MatrixEvent>) -> bool {
    event matches Some(
        MatrixEvent::Message(MessageEvent::RoomMessage { msgtype: MessageType::Image, .. }),
    )
}

/// Whether an event is the creation event of its room.
pub open spec fn is_room_create(event: Option<MatrixEvent>) -> bool {
    event matches Some(MatrixEvent::State(StateEventType::RoomCreate))
}

impl MessageEvent {
    pub fn event_type(&self) -> (t: MessageEventType)
        ensures
            t == message_event_type(*self),
    {
        match self {
            MessageEvent::RoomMessage { .. } => MessageEventType::RoomMessage,
            MessageEvent::Reaction { .. } => MessageEventType::Reaction,
            MessageEvent::RoomRedaction { .. } => MessageEventType::RoomRedaction,
            MessageEvent::Sticker => MessageEventType::Sticker,
            MessageEvent::RoomEncrypted => MessageEventType::RoomEncrypted,
            MessageEvent::Other(t) => *t,
        }
    }
}

fn is_hidden_message_type(t: MessageEventType) -> (b: bool)
    ensures
        b == hidden_message_type(t),
{
    matches!(
        t,
        MessageEventType::CallAnswer | MessageEventType::CallInvite | MessageEventType::CallHangup
            | MessageEventType::CallCandidates | MessageEventType::KeyVerificationReady
            | MessageEventType::KeyVerificationStart | MessageEventType::KeyVerificationCancel
            | MessageEventType::KeyVerificationAccept | MessageEventType::KeyVerificationKey
            | MessageEventType::KeyVerificationMac | MessageEventType::KeyVerificationDone
            | MessageEventType::RoomMessageFeedback | MessageEventType::RoomRedaction
    )
}

fn is_hidden_state_type(t: StateEventType) -> (b: bool)
    ensures
        b == hidden_state_type(t),
{
    matches!(
        t,
        StateEventType::PolicyRuleRoom | StateEventType::PolicyRuleServer
            | StateEventType::PolicyRuleUser | StateEventType::RoomAliases
            | StateEventType::RoomAvatar | StateEventType::RoomCanonicalAlias
            | StateEventType::RoomEncryption | StateEventType::RoomJoinRules
            | StateEventType::RoomName | StateEventType::RoomPinnedEvents
            | StateEventType::RoomPowerLevels | StateEventType::RoomServerAcl
            | StateEventType::RoomTopic
    )
}

impl EventData {
    /// Find the related event if any.
    pub fn related_matrix_event(&self) -> (id: Option<u64>)
        ensures
            id == related_event(self.event),
    {
        match &self.event {
            Some(MatrixEvent::Message(m)) => match m {
                MessageEvent::RoomRedaction { redacts } => Some(*redacts),
                MessageEvent::Reaction { relates_to, .. } => Some(*relates_to),
                MessageEvent::RoomMessage { relates_to, .. } => match relates_to {
                    Some(Relation::Reply(id)) => Some(*id),
                    Some(Relation::Replacement(id)) => Some(*id),
                    _ => None,
                },
                _ => None,
            },
            _ => None,
        }
    }

    /// Whether this event is hidden from the user or displayed in the room history.
    pub fn is_hidden_event(&self) -> (b: bool)
        ensures
            b == is_hidden(self.event),
    {
        if self.related_matrix_event().is_some() {
            if let Some(MatrixEvent::Message(MessageEvent::RoomMessage { relates_to, .. })) =
                &self.event {
                if let Some(Relation::Reply(_)) = relates_to {
                    return false;
                }
            }
            return true;
        }
        match &self.event {
            Some(MatrixEvent::Message(m)) => is_hidden_message_type(m.event_type()),
            Some(MatrixEvent::State(t)) => is_hidden_state_type(*t),
            Some(MatrixEvent::RedactedMessage(t)) => is_hidden_message_type(*t) || matches!(
                *t,
                MessageEventType::Sticker
            ),
            Some(MatrixEvent::RedactedState(t)) => is_hidden_state_type(*t),
            None => false,
        }
    }

    /// Whether this event is allowed to hide its header.
    pub fn can_hide_header(&self) -> (b: bool)
        ensures
            b == hides_header(self.event),
    {
        match &self.event {
            Some(MatrixEvent::Message(MessageEvent::RoomMessage { msgtype, .. })) => matches!(
                msgtype,
                MessageType::Audio | MessageType::File | MessageType::Image
                    | MessageType::Location | MessageType::Notice | MessageType::Text
                    | MessageType::Video
            ),
            Some(MatrixEvent::Message(MessageEvent::Sticker)) => true,
            _ => false,
        }
    }

    /// Whether this is a media event that can be viewed.
    pub fn can_view_media(&self) -> (b: bool)
        ensures
            b == shows_media(self.event),
    {
        match &self.event {
            Some(
                MatrixEvent::Message(MessageEvent::RoomMessage { msgtype: MessageType::Image, .. }),
            ) => true,
            _ => false,
        }
    }

    /// Whether this is the creation event of its room.
    pub fn is_room_create(&self) -> (b: bool)
        ensures
            b == is_room_create(self.event),
    {
        matches!(&self.event, Some(MatrixEvent::State(StateEventType::RoomCreate)))
    }
}

/// The actions a widget offers on its event: its source can always be
/// viewed; the file of a file message can be saved and opened.
#[derive(Clone, Copy, Debug, PartialEq, Eq, Structural)]
pub struct EventActionSet {
    pub view_source: bool,
    pub file_save: bool,
    pub file_open: bool,
}

/// Whether the event is a file message.
pub open spec fn is_file_message(event: Option<MatrixEvent>) -> bool {
    event matches Some(MatrixEvent::Message(MessageEvent::RoomMessage { msgtype, .. }))
        && msgtype == MessageType::File
}

/// The actions on an event, `is_file` telling whether it is a file message.
pub open spec fn action_set(is_file: bool) -> EventActionSet {
    EventActionSet { view_source: true, file_save: is_file, file_open: is_file }
}

/// The actions on an event, `is_file` telling whether it is a file message.
pub fn event_action_set(is_file: bool) -> (a: EventActionSet)
    ensures
        a == action_set(is_file),
{
    EventActionSet { view_source: true, file_save: is_file, file_open: is_file }
}

/// The actions a widget offers on `event`; none, with the action group
/// removed, where there is no event.
pub fn event_actions(event: Option<&EventData>) -> (a: Option<EventActionSet>)
    ensures
        a == match event {
            None => None,
            Some(e) => Some(action_set(is_file_message(e.event))),
        },
{
    match event {
        None => None,
        Some(e) => {
            let is_file = match &e.event {
                Some(MatrixEvent::Message(MessageEvent::RoomMessage { msgtype: MessageType::File, .. })) => true,
                _ => false,
            };
            Some(event_action_set(is_file))
        },
    }
}

/// Which state events the room history shows: a membership change, the
/// creation of the room, a third-party invite, the room's replacement by an
/// upgrade, and state of a type this client does not know. All the state
/// that only tunes the room (its power levels, name, topic, avatar, aliases,
/// canonical alias, join rules, encryption, server ACL, pinned events, and
/// the policy rules) is hidden, whether or not it was redacted.
pub proof fn lemma_shown_state_events(t: StateEventType)
    ensures
        !is_hidden(Some(MatrixEvent::State(t))) <==> (t == StateEventType::RoomMember || t
            == StateEventType::RoomCreate || t == StateEventType::RoomThirdPartyInvite || t
            == StateEventType::RoomTombstone || t == StateEventType::Other),
        is_hidden(Some(MatrixEvent::RedactedState(t))) == is_hidden(Some(MatrixEvent::State(t))),
        is_hidden(Some(MatrixEvent::State(StateEventType::RoomPowerLevels))),
        is_hidden(Some(MatrixEvent::State(StateEventType::RoomName))),
        is_hidden(Some(MatrixEvent::State(StateEventType::RoomTopic))),
        is_hidden(Some(MatrixEvent::State(StateEventType::RoomAvatar))),
        is_hidden(Some(MatrixEvent::State(StateEventType::RoomJoinRules))),
        is_hidden(Some(MatrixEvent::State(StateEventType::RoomEncryption))),
        !is_hidden(Some(MatrixEvent::State(StateEventType::RoomMember))),
        !is_hidden(Some(MatrixEvent::State(StateEventType::RoomCreate))),
{
}

/// Which message events of their own type the room history shows: room
/// messages, stickers, encrypted messages, reactions' own type aside, and
/// types this client does not know. Calls, key verification steps, read
/// feedback and redactions are hidden; a redacted sticker is hidden too.
pub proof fn lemma_shown_message_types(t: MessageEventType)
    ensures
        !is_hidden(Some(MatrixEvent::Message(MessageEvent::Other(t)))) <==> (t == MessageEventType::Reaction || t
            == MessageEventType::RoomEncrypted || t == MessageEventType::RoomMessage || t
            == MessageEventType::Sticker || t == MessageEventType::Other),
        !is_hidden(Some(MatrixEvent::RedactedMessage(t))) <==> (t == MessageEventType::Reaction || t
            == MessageEventType::RoomEncrypted || t == MessageEventType::RoomMessage || t
            == MessageEventType::Other),
        !is_hidden(Some(MatrixEvent::Message(MessageEvent::Sticker))),
        !is_hidden(Some(MatrixEvent::Message(MessageEvent::RoomEncrypted))),
        !is_hidden(Some(MatrixEvent::Message(MessageEvent::RoomMessage { msgtype: MessageType::Text, relates_to: None }))),
        !is_hidden(None),
{
}

/// A reaction, a redaction and an edit are hidden: they change the event
/// they relate to rather than standing in the history; a reply is shown.
pub proof fn lemma_relating_events_hidden(id: u64, key: String, m: MessageType)
    ensures
        is_hidden(Some(MatrixEvent::Message(MessageEvent::Reaction { relates_to: id, key }))),
        is_hidden(Some(MatrixEvent::Message(MessageEvent::RoomRedaction { redacts: id }))),
        is_hidden(Some(MatrixEvent::Message(MessageEvent::RoomMessage { msgtype: m, relates_to: Some(Relation::Replacement(id)) }))),
        !is_hidden(Some(MatrixEvent::Message(MessageEvent::RoomMessage { msgtype: m, relates_to: Some(Relation::Reply(id)) }))),
{
}

/// Which events may hide their header after an event of the same sender:
/// audio, file, image, location, notice, text and video messages, and
/// stickers; never emotes, server notices, verification requests, unknown
/// message types, state or other events. Only images open in the media
/// viewer.
pub proof fn lemma_header_hiding_kinds(m: MessageType, r: Option<Relation>, t: StateEventType)
    ensures
        hides_header(Some(MatrixEvent::Message(MessageEvent::RoomMessage { msgtype: m, relates_to: r }))) <==> !(m
            == MessageType::Emote || m == MessageType::ServerNotice || m == MessageType::VerificationRequest || m
            == MessageType::Other),
        hides_header(Some(MatrixEvent::Message(MessageEvent::Sticker))),
        !hides_header(Some(MatrixEvent::State(t))),
        !hides_header(None),
        shows_media(Some(MatrixEvent::Message(MessageEvent::RoomMessage { msgtype: m, relates_to: r }))) <==> m
            == MessageType::Image,
        !shows_media(Some(MatrixEvent::Message(MessageEvent::Sticker))),
{
}

/// A reply is never hidden; any other related event is.
pub proof fn lemma_related_hidden_unless_reply(event: Option<MatrixEvent>)
    requires
        related_event(event) is Some,
    ensures
        is_hidden(event) == !is_reply_message(event),
{
}

/// An event that can hide its header is always shown in the room history.
pub proof fn lemma_header_hiding_events_are_shown(event: Option<MatrixEvent>)
    requires
        hides_header(event),
        !(event matches Some(
            MatrixEvent::Message(MessageEvent::RoomMessage { relates_to: Some(Relation::Replacement(_)), .. }),
        )),
    ensures
        !is_hidden(event),
{
}

/// What `serde_json` makes of a raw event: parsed into a value, then
/// pretty-printed; `None` where the text is not JSON.
pub uninterp spec fn pretty_json(raw: Seq<char>) -> Option<Seq<char>>;

/// `serde_json::from_str` into a `serde_json::Value`, then
/// `serde_json::to_string_pretty`: the pretty-printed JSON, or `None` where
/// the text is not JSON.
#[verifier::external_body]
fn pretty_print_json(raw: &str) -> (r: Option<String>)
    ensures
        match r {
            Some(s) => pretty_json(raw@) == Some(s@),
            None => pretty_json(raw@) is None,
        },
{
    serde_json::from_str::<serde_json::Value>(raw).ok().and_then(|v| serde_json::to_string_pretty(&v).ok())
}

/// The source of an event for the user to read: its raw JSON, pretty-printed.
/// `None` where the raw event is not JSON.
pub fn event_source(raw_json: &str) -> (r: Option<String>)
    ensures
        match r {
            Some(s) => pretty_json(raw_json@) == Some(s@),
            None => pretty_json(raw_json@) is None,
        },
{
    pretty_print_json(raw_json)
}

/// How times of day are written.
#[derive(Clone, Copy, Debug, PartialEq, Eq, Structural)]
pub enum ClockFormat {
    /// "%l∶%M %p"
    TwelveHour,
    /// "%R"
    TwentyFourHour,
}

/// Whether the locale writes times with AM and PM: its time of day ends with
/// "am" or "pm", in any ASCII case.
pub open spec fn ends_with_am_pm(t: Seq<char>) -> bool {
    &&& t.len() >= 2
    &&& (t[t.len() - 1] == 'm' || t[t.len() - 1] == 'M')
    &&& (t[t.len() - 2] == 'a' || t[t.len() - 2] == 'A' || t[t.len() - 2] == 'p' || t[t.len() - 2] == 'P')
}

/// The clock format of the locale, from how it writes a time of day
/// (`%X`): twelve hours when that ends with "am" or "pm".
pub fn clock_format(local_time: &str) -> (f: ClockFormat)
    ensures
        f == if ends_with_am_pm(local_time@) { ClockFormat::TwelveHour } else { ClockFormat::TwentyFourHour },
{
    let n = local_time.unicode_len();
    if n < 2 {
        return ClockFormat::TwentyFourHour;
    }
    let last = local_time.get_char(n - 1);
    let before = local_time.get_char(n - 2);
    if (last == 'm' || last == 'M') && (before == 'a' || before == 'A' || before == 'p' || before == 'P') {
        ClockFormat::TwelveHour
    } else {
        ClockFormat::TwentyFourHour
    }
}

} // verus!
