use vstd::prelude::*;

use crate::strings::{opt_view, same_opt};

verus! {

/// The membership of a room member.
#[derive(Clone, Copy, Debug, PartialEq, Eq, Structural)]
pub enum Membership {
    Ban,
    Invite,
    Join,
    Knock,
    Leave,
    /// A membership this client does not know.
    Other,
}

/// The content of a room member event: the parts the room history reads.
#[derive(Clone, Debug)]
pub struct MemberContent {
    pub membership: Membership,
    pub displayname: Option<String>,
    pub avatar_url: Option<String>,
}

/// The content of a state event, as the room history reads it.
#[derive(Clone, Debug)]
pub enum StateContent {
    RoomCreate,
    RoomEncryption,
    /// A member event, with the previous content when that was a member
    /// event too.
    RoomMember { content: MemberContent, prev: Option<MemberContent> },
    RoomThirdPartyInvite { display_name: String },
    RoomTombstone { body: String },
    /// Any other state event.
    Other,
}

/// A state event: who sent it, about whom, and what it says.
#[derive(Clone, Debug)]
pub struct StateEventSummary {
    pub state_key: String,
    pub sender: String,
    pub content: StateContent,
}

/// The message that a state event row shows, with the names in it.
#[derive(Clone, Debug)]
pub enum StateMessage {
    /// "The beginning of this room."
    RoomBeginning,
    /// "This room is now encrypted."
    NowEncrypted,
    /// "{prev_name} removed their display name."
    DisplayNameRemoved { prev_name: String },
    /// "{prev_name} changed their display name to {name}."
    DisplayNameChanged { prev_name: String, name: String },
    /// "{user} set their display name to {name}."
    DisplayNameSet { user: String, name: String },
    /// "{name} set their avatar."
    AvatarSet { name: String },
    /// "{name} removed their avatar."
    AvatarRemoved { name: String },
    /// "{name} changed their avatar."
    AvatarChanged { name: String },
    /// "{name} joined this room."
    Joined { name: String },
    /// "{name} was invited to this room."
    Invited { name: String },
    /// "{name} requested to be invited to this room."
    Knocked { name: String },
    /// "{name} rejected the invite."
    InviteRejected { name: String },
    /// "{name}'s invite was revoked."
    InviteRevoked { name: String },
    /// "{name} was unbanned."
    Unbanned { name: String },
    /// "{name} left the room."
    Left { name: String },
    /// "{name} was kicked of the room."
    Kicked { name: String },
    /// "{name} was banned."
    Banned { name: String },
    /// "An unsupported room member event was received."
    UnsupportedMemberEvent,
    /// "The room was upgraded: {body}"
    Upgraded { body: String },
    /// "An unsupported state event was received."
    UnsupportedStateEvent,
}

/// The name a member event shows: the display name, or else the user id.
pub open spec fn member_name(state_key: String, content: MemberContent) -> String {
    match content.displayname {
        Some(n) => n,
        None => state_key,
    }
}

/// The message of a member event that makes or keeps someone a member.
pub open spec fn join_message(state_key: String, content: MemberContent, prev: Option<MemberContent>) -> StateMessage {
    let name = member_name(state_key, content);
    match prev {
        Some(p) => if content.membership != p.membership {
            StateMessage::Joined { name }
        } else if opt_view(content.displayname) != opt_view(p.displayname) {
            match p.displayname {
                Some(prev_name) => if content.displayname is None {
                    StateMessage::DisplayNameRemoved { prev_name }
                } else {
                    StateMessage::DisplayNameChanged { prev_name, name }
                },
                None => StateMessage::DisplayNameSet { user: state_key, name },
            }
        } else if opt_view(content.avatar_url) != opt_view(p.avatar_url) {
            if p.avatar_url is None {
                StateMessage::AvatarSet { name }
            } else if content.avatar_url is None {
                StateMessage::AvatarRemoved { name }
            } else {
                StateMessage::AvatarChanged { name }
            }
        } else {
            StateMessage::Joined { name }
        },
        None => StateMessage::Joined { name },
    }
}

/// The message of a member event that makes someone leave.
pub open spec fn leave_message(e: StateEventSummary, content: MemberContent, prev: Option<MemberContent>) -> StateMessage {
    let name = member_name(e.state_key, content);
    let own = e.state_key@ == e.sender@;
    match prev {
        Some(p) if p.membership == Membership::Invite => if own {
            StateMessage::InviteRejected { name }
        } else {
            StateMessage::InviteRevoked { name }
        },
        Some(p) if p.membership == Membership::Ban => StateMessage::Unbanned { name },
        _ => if own {
            StateMessage::Left { name }
        } else {
            StateMessage::Kicked { name }
        },
    }
}

/// The message that a row shows for the state event `e`.
pub open spec fn state_message(e: StateEventSummary) -> StateMessage {
    match e.content {
        StateContent::RoomCreate => StateMessage::RoomBeginning,
        StateContent::RoomEncryption => StateMessage::NowEncrypted,
        StateContent::RoomMember { content, prev } => {
            let name = member_name(e.state_key, content);
            match content.membership {
                Membership::Join => join_message(e.state_key, content, prev),
                Membership::Invite => StateMessage::Invited { name },
                Membership::Knock => StateMessage::Knocked { name },
                Membership::Leave => leave_message(e, content, prev),
                Membership::Ban => StateMessage::Banned { name },
                Membership::Other => StateMessage::UnsupportedMemberEvent,
            }
        },
        StateContent::RoomThirdPartyInvite { display_name } => StateMessage::Invited {
            name: if display_name@.len() == 0 { e.state_key } else { display_name },
        },
        StateContent::RoomTombstone { body } => StateMessage::Upgraded { body },
        StateContent::Other => StateMessage::UnsupportedStateEvent,
    }
}

fn clone_member_name(state_key: &String, content: &MemberContent) -> (n: String)
    ensures
        n == member_name(*state_key, *content),
{
    match &content.displayname {
        Some(n) => n.clone(),
        None => state_key.clone(),
    }
}

fn join_message_of(state_key: &String, content: &MemberContent, prev: &Option<MemberContent>) -> (m: StateMessage)
    ensures
        m == join_message(*state_key, *content, *prev),
{
    let name = clone_member_name(state_key, content);
    match prev {
        Some(p) => {
            if content.membership != p.membership {
                StateMessage::Joined { name }
            } else if !same_opt(&content.displayname, &p.displayname) {
                match &p.displayname {
                    Some(prev_name) => {
                        if content.displayname.is_none() {
                            StateMessage::DisplayNameRemoved { prev_name: prev_name.clone() }
                        } else {
                            StateMessage::DisplayNameChanged { prev_name: prev_name.clone(), name }
                        }
                    },
                    None => StateMessage::DisplayNameSet { user: state_key.clone(), name },
                }
            } else if !same_opt(&content.avatar_url, &p.avatar_url) {
                if p.avatar_url.is_none() {
                    StateMessage::AvatarSet { name }
                } else if content.avatar_url.is_none() {
                    StateMessage::AvatarRemoved { name }
                } else {
                    StateMessage::AvatarChanged { name }
                }
            } else {
                StateMessage::Joined { name }
            }
        },
        None => StateMessage::Joined { name },
    }
}

fn leave_message_of(e: &StateEventSummary, content: &MemberContent, prev: &Option<MemberContent>) -> (m: StateMessage)
    ensures
        m == leave_message(*e, *content, *prev),
{
    let name = clone_member_name(&e.state_key, content);
    let own = e.state_key == e.sender;
    match prev {
        Some(p) => {
            if p.membership == Membership::Invite {
                if own {
                    StateMessage::InviteRejected { name }
                } else {
                    StateMessage::InviteRevoked { name }
                }
            } else if p.membership == Membership::Ban {
                StateMessage::Unbanned { name }
            } else if own {
                StateMessage::Left { name }
            } else {
                StateMessage::Kicked { name }
            }
        },
        None => {
            if own {
                StateMessage::Left { name }
            } else {
                StateMessage::Kicked { name }
            }
        },
    }
}

/// A row of the room history that shows a state event as a sentence.
pub struct StateRow {
    /// The message shown, once the row was given an event.
    message: Option<StateMessage>,
}

impl StateRow {
    pub closed spec fn shown(&self) -> Option<StateMessage> {
        self.message
    }

    pub fn new() -> (r: StateRow)
        ensures
            r.shown() is None,
    {
        StateRow { message: None }
    }

    /// The message shown.
    pub fn message(&self) -> (m: &Option<StateMessage>)
        ensures
            *m == self.shown(),
    {
        &self.message
    }

    /// Shows the state event `state`.
    pub fn update(&mut self, state: &StateEventSummary)
        ensures
            final(self).shown() == Some(state_message(*state)),
    {
        let message = match &state.content {
            StateContent::RoomCreate => StateMessage::RoomBeginning,
            StateContent::RoomEncryption => StateMessage::NowEncrypted,
            StateContent::RoomMember { content, prev } => {
                match content.membership {
                    Membership::Join => join_message_of(&state.state_key, content, prev),
                    Membership::Invite => StateMessage::Invited { name: clone_member_name(&state.state_key, content) },
                    Membership::Knock => StateMessage::Knocked { name: clone_member_name(&state.state_key, content) },
                    Membership::Leave => leave_message_of(state, content, prev),
                    Membership::Ban => StateMessage::Banned { name: clone_member_name(&state.state_key, content) },
                    Membership::Other => StateMessage::UnsupportedMemberEvent,
                }
            },
            StateContent::RoomThirdPartyInvite { display_name } => {
                let name = if display_name.as_str().is_empty() {
                    state.state_key.clone()
                } else {
                    display_name.clone()
                };
                StateMessage::Invited { name }
            },
            StateContent::RoomTombstone { body } => StateMessage::Upgraded { body: body.clone() },
            StateContent::Other => StateMessage::UnsupportedStateEvent,
        };
        self.message = Some(message);
    }
}

/// What the row of a room's creation event shows.
#[derive(Clone, Debug)]
pub enum CreationView {
    /// "This is the continuation of an upgraded room.", with a button that
    /// opens the previous room through this action.
    Continuation { action: String },
    /// "The beginning of this room.", without a button.
    Beginning,
}

/// The action that opens the room `room_id`.
pub open spec fn show_room_action(room_id: Seq<char>) -> Seq<char> {
    seq!['s', 'e', 's', 's', 'i', 'o', 'n', '.', 's', 'h', 'o', 'w', '-', 'r', 'o', 'o', 'm', ':', ':'] + room_id
}

/// A row that shows the creation of a room.
pub struct StateCreation {
    view: Option<CreationView>,
}

impl StateCreation {
    pub closed spec fn view_of(&self) -> Option<CreationView> {
        self.view
    }

    pub fn new() -> (c: StateCreation)
        ensures
            c.view_of() is None,
    {
        StateCreation { view: None }
    }

    pub fn view(&self) -> (v: &Option<CreationView>)
        ensures
            *v == self.view_of(),
    {
        &self.view
    }

    /// Shows a creation event, with the id of the room it continues, if any.
    pub fn set_event(&mut self, predecessor: Option<&str>)
        ensures
            match predecessor {
                Some(id) => final(self).view_of() matches Some(CreationView::Continuation { action })
                    && action@ == show_room_action(id@),
                None => final(self).view_of() matches Some(CreationView::Beginning),
            },
    {
        match predecessor {
            Some(id) => {
                let prefix = "session.show-room::";
                proof {
                    reveal_strlit("session.show-room::");
                }
                let mut action = String::new();
                action.append(prefix);
                action.append(id);
                assert(action@ =~= show_room_action(id@));
                self.view = Some(CreationView::Continuation { action });
            },
            None => {
                self.view = Some(CreationView::Beginning);
            },
        }
    }
}

/// The sentence of a member event, by its new membership: a ban says the
/// member was banned, an invite that they were invited, a knock that they
/// asked to be invited, each with the member's display name or else their
/// id. A leave says that an invite was rejected (by the invited user) or
/// revoked (by someone else), that a ban was lifted, or else that the member
/// left (by themselves) or was kicked (by someone else). A first join says
/// the member joined. An unknown membership is "unsupported".
pub proof fn lemma_member_sentences(e: StateEventSummary, content: MemberContent, prev: Option<MemberContent>)
    requires
        e.content == (StateContent::RoomMember { content, prev }),
    ensures
        ({
            let name = match content.displayname {
                Some(n) => n,
                None => e.state_key,
            };
            let own = e.state_key@ == e.sender@;
            let m = state_message(e);
            &&& content.membership == Membership::Ban ==> m == (StateMessage::Banned { name })
            &&& content.membership == Membership::Invite ==> m == (StateMessage::Invited { name })
            &&& content.membership == Membership::Knock ==> m == (StateMessage::Knocked { name })
            &&& content.membership == Membership::Other ==> m == StateMessage::UnsupportedMemberEvent
            &&& content.membership == Membership::Join && prev is None ==> m == (StateMessage::Joined { name })
            &&& content.membership == Membership::Leave ==> match prev {
                Some(p) if p.membership == Membership::Invite => if own {
                    m == (StateMessage::InviteRejected { name })
                } else {
                    m == (StateMessage::InviteRevoked { name })
                },
                Some(p) if p.membership == Membership::Ban => m == (StateMessage::Unbanned { name }),
                _ => if own {
                    m == (StateMessage::Left { name })
                } else {
                    m == (StateMessage::Kicked { name })
                },
            }
        }),
{
}

/// Only a ban says that someone was banned, and only a leave that someone
/// was kicked or left: a member's new membership decides the kind of
/// sentence.
pub proof fn lemma_sentence_kind_from_membership(e: StateEventSummary)
    ensures
        state_message(e) is Banned ==> (e.content matches StateContent::RoomMember { content, .. } && content.membership
            == Membership::Ban),
        (state_message(e) is Kicked || state_message(e) is Left) ==> (e.content matches StateContent::RoomMember {
            content,
            ..
        } && content.membership == Membership::Leave),
        state_message(e) is Knocked ==> (e.content matches StateContent::RoomMember { content, .. } && content.membership
            == Membership::Knock),
        state_message(e) is Joined ==> (e.content matches StateContent::RoomMember { content, .. } && content.membership
            == Membership::Join),
{
}

/// The sentences of the other state events: the room's creation is its
/// beginning, encryption says the room is now encrypted, a tombstone that
/// the room was upgraded, with its message; a third-party invite names the
/// invited by display name, or by id when that is empty; any other state is
/// "unsupported".
pub proof fn lemma_other_state_sentences(e: StateEventSummary)
    ensures
        e.content is RoomCreate ==> state_message(e) is RoomBeginning,
        e.content is RoomEncryption ==> state_message(e) is NowEncrypted,
        e.content matches StateContent::RoomTombstone { body } ==> state_message(e) == (StateMessage::Upgraded { body }),
        e.content matches StateContent::RoomThirdPartyInvite { display_name } ==> state_message(e) == (StateMessage::Invited {
            name: if display_name@.len() == 0 { e.state_key } else { display_name },
        }),
        e.content is Other ==> state_message(e) is UnsupportedStateEvent,
{
}

} // verus!
