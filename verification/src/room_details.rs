use vstd::prelude::*;

use crate::power_levels::{allowed, event_level, PowerLevel, PowerLevels, PowerLevelsContent, RoomAction};
use crate::room::{Room, StoreOutcome};

verus! {

/// Whether a member at `power_level` may send a state event of type `t`.
pub open spec fn may_send_state(power_level: int, content: PowerLevelsContent, t: Seq<char>) -> bool {
    power_level >= match event_level(content.events@, t) {
        Some(l) => l,
        None => content.state_default,
    }
}

/// Which controls of the room details the user sees.
#[derive(Clone, Copy, Debug, PartialEq, Eq, Structural)]
pub struct DetailsControls {
    /// The button that changes the avatar.
    pub avatar_edit_visible: bool,
    /// The button that removes the avatar.
    pub avatar_remove_visible: bool,
    /// The button that edits the name and topic.
    pub edit_toggle_visible: bool,
}

/// Whether the user, at `own_level`, may send a state event of type `t`.
fn may_send(levels: &PowerLevels, own_level: PowerLevel, t: &str) -> (b: bool)
    ensures
        b == may_send_state(own_level as int, levels.content, t@),
{
    let action = RoomAction::StateEvent(t.to_string());
    let b = levels.is_allowed(own_level, &action);
    assert(allowed(own_level as int, levels.content, action) == may_send_state(own_level as int, levels.content, t@));
    b
}

/// The controls the user sees, at power level `own_level`, in a room with
/// `levels`: changing the avatar takes the right to send its state event,
/// and removing it an avatar to remove as well; editing takes the right to
/// change the name or the topic.
pub fn details_controls(levels: &PowerLevels, own_level: PowerLevel, has_avatar: bool) -> (c: DetailsControls)
    ensures
        c.avatar_edit_visible == may_send_state(own_level as int, levels.content, "m.room.avatar"@),
        c.avatar_remove_visible == (c.avatar_edit_visible && has_avatar),
        c.edit_toggle_visible == (may_send_state(own_level as int, levels.content, "m.room.name"@)
            || may_send_state(own_level as int, levels.content, "m.room.topic"@)),
{
    let avatar = may_send(levels, own_level, "m.room.avatar");
    let name = may_send(levels, own_level, "m.room.name");
    let topic = may_send(levels, own_level, "m.room.topic");
    DetailsControls { avatar_edit_visible: avatar, avatar_remove_visible: avatar && has_avatar, edit_toggle_visible: name || topic }
}

/// The title of the room details window.
#[derive(Clone, Copy, Debug, PartialEq, Eq, Structural)]
pub enum DetailsTitle {
    /// "Room Details"
    RoomDetails,
    /// "Invite new Members"
    InviteNewMembers,
}

/// The window with a room's details, where its name and topic are edited.
pub struct RoomDetails {
    editing: bool,
    title: DetailsTitle,
}

impl RoomDetails {
    pub closed spec fn editing_view(&self) -> bool {
        self.editing
    }

    pub closed spec fn title_view(&self) -> DetailsTitle {
        self.title
    }

    /// Details that are not being edited.
    pub fn new() -> (d: RoomDetails)
        ensures
            !d.editing_view(),
            d.title_view() == DetailsTitle::RoomDetails,
    {
        RoomDetails { editing: false, title: DetailsTitle::RoomDetails }
    }

    /// Whether the name and topic are being edited.
    pub fn editing(&self) -> (b: bool)
        ensures
            b == self.editing_view(),
    {
        self.editing
    }

    /// The label of the edit button: "Save Details" while editing, else
    /// "Edit Details".
    pub fn edit_label(&self) -> (l: &'static str)
        ensures
            l == if self.editing_view() { "Save Details" } else { "Edit Details" },
    {
        if self.editing {
            "Save Details"
        } else {
            "Edit Details"
        }
    }

    /// Turns the edit button on or off. Returns whether the name and topic
    /// are to be saved: they are when editing ends.
    pub fn set_editing(&mut self, active: bool) -> (save: bool)
        ensures
            final(self).editing_view() == active,
            final(self).title_view() == old(self).title_view(),
            save == (old(self).editing_view() && !active),
    {
        let save = self.editing && !active;
        self.editing = active;
        save
    }

    /// Enter in the name entry ends editing. Returns whether the name and
    /// topic are to be saved.
    pub fn name_entry_activated(&mut self) -> (save: bool)
        ensures
            !final(self).editing_view(),
            final(self).title_view() == old(self).title_view(),
            save == old(self).editing_view(),
    {
        self.set_editing(false)
    }

    /// The title while the invite page is shown.
    pub fn present_invite_subpage(&mut self)
        ensures
            final(self).title_view() == DetailsTitle::InviteNewMembers,
            final(self).editing_view() == old(self).editing_view(),
    {
        self.title = DetailsTitle::InviteNewMembers;
    }

    /// The title once the invite page is closed.
    pub fn close_invite_subpage(&mut self)
        ensures
            final(self).title_view() == DetailsTitle::RoomDetails,
            final(self).editing_view() == old(self).editing_view(),
    {
        self.title = DetailsTitle::RoomDetails;
    }

    /// The title.
    pub fn title(&self) -> (t: DetailsTitle)
        ensures
            t == self.title_view(),
    {
        self.title
    }
}

/// What saving the edited details does with the name and the topic in the
/// entries: each goes to the room, which sends what changed.
pub fn save_details(room: &Room, name: &str, topic: &str) -> (o: (StoreOutcome, StoreOutcome))
    requires
        room.membership() is Some,
    ensures
        o.0 == room.name_outcome(name),
        o.1 == room.topic_outcome(topic@),
{
    (room.store_room_name(name), room.store_topic(topic))
}

/// The file the avatar chooser hands on: the chosen one, when the user
/// accepted.
pub fn chosen_avatar(accepted: bool, file: Option<String>) -> (f: Option<String>)
    ensures
        f == if accepted { file } else { None::<String> },
{
    if accepted {
        file
    } else {
        None
    }
}

} // verus!
