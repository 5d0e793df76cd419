use vstd::prelude::*;

verus! {

/// Power level of a user.
///
/// Is usually in the range (0..=100), but can be any JS integer.
pub type PowerLevel = i64;

/// Same value as MAX_SAFE_INT from js_int.
pub const POWER_LEVEL_MAX: i64 = 0x001F_FFFF_FFFF_FFFF;

pub const POWER_LEVEL_MIN: i64 = -0x001F_FFFF_FFFF_FFFF;

/// The content of a room's power-levels state event, with the levels that
/// actions require.
#[derive(Debug)]
pub struct PowerLevelsContent {
    pub ban: PowerLevel,
    pub invite: PowerLevel,
    pub kick: PowerLevel,
    pub redact: PowerLevel,
    pub state_default: PowerLevel,
    pub events_default: PowerLevel,
    pub users_default: PowerLevel,
    /// The level needed to notify the whole room.
    pub notifications_room: PowerLevel,
    /// Levels for single event types, by the type's name.
    pub events: Vec<(String, PowerLevel)>,
}

/// Actions that require different power levels to perform them.
#[derive(Debug)]
pub enum RoomAction {
    Ban,
    Invite,
    Kick,
    Redact,
    RoomNotification,
    StateEvent(String),
    MessageEvent(String),
}

/// The level that `events` gives to the event type `event_type`, if it names
/// that type (the first entry for it).
pub open spec fn event_level(events: Seq<(String, PowerLevel)>, event_type: Seq<char>) -> Option<
    PowerLevel,
>
    decreases events.len(),
{
    if events.len() == 0 {
        None
    } else if events[0].0@ == event_type {
        Some(events[0].1)
    } else {
        event_level(events.drop_first(), event_type)
    }
}

/// The power level minimally required to perform `action` in a room with
/// these power levels.
pub open spec fn required_level(content: PowerLevelsContent, action: RoomAction) -> PowerLevel {
    match action {
        RoomAction::Ban => content.ban,
        RoomAction::Invite => content.invite,
        RoomAction::Kick => content.kick,
        RoomAction::Redact => content.redact,
        RoomAction::RoomNotification => content.notifications_room,
        RoomAction::StateEvent(t) => match event_level(content.events@, t@) {
            Some(l) => l,
            None => content.state_default,
        },
        RoomAction::MessageEvent(t) => match event_level(content.events@, t@) {
            Some(l) => l,
            None => content.events_default,
        },
    }
}

/// Whether a member at `power_level` may perform `action`.
pub open spec fn allowed(power_level: int, content: PowerLevelsContent, action: RoomAction) -> bool {
    power_level >= required_level(content, action)
}

fn lookup_event_level(events: &Vec<(String, PowerLevel)>, event_type: &String) -> (level: Option<
    PowerLevel,
>)
    ensures
        level == event_level(events@, event_type@),
{
    let mut i: usize = 0;
    assert(events@.skip(0) =~= events@);
    while i < events.len()
        invariant
            i <= events@.len(),
            event_level(events@, event_type@) == event_level(events@.skip(i as int), event_type@),
        decreases events@.len() - i,
    {
        assert(events@.skip(i as int).drop_first() =~= events@.skip(i + 1));
        if events[i].0 == *event_type {
            return Some(events[i].1);
        }
        i = i + 1;
    }
    None
}

/// Returns the power level minimally required to perform the given action.
pub fn min_level_for_room_action(content: &PowerLevelsContent, room_action: &RoomAction) -> (level:
    PowerLevel)
    ensures
        level == required_level(*content, *room_action),
{
    match room_action {
        RoomAction::Ban => content.ban,
        RoomAction::Invite => content.invite,
        RoomAction::Kick => content.kick,
        RoomAction::Redact => content.redact,
        RoomAction::RoomNotification => content.notifications_room,
        RoomAction::StateEvent(event_type) => match lookup_event_level(&content.events, event_type) {
            Some(l) => l,
            None => content.state_default,
        },
        RoomAction::MessageEvent(event_type) => match lookup_event_level(
            &content.events,
            event_type,
        ) {
            Some(l) => l,
            None => content.events_default,
        },
    }
}

/// The levels of a room before any power-levels event: 50 to ban, kick,
/// redact, send state events and notify the room; 0 for the rest.
pub open spec fn is_initial_content(content: PowerLevelsContent) -> bool {
    &&& content.ban == 50 && content.kick == 50 && content.redact == 50
    &&& content.state_default == 50 && content.notifications_room == 50
    &&& content.invite == 0 && content.events_default == 0 && content.users_default == 0
    &&& content.events@.len() == 0
}

/// Two contents that give every action the same level and name the same event
/// types in the same order.
pub open spec fn same_content(a: PowerLevelsContent, b: PowerLevelsContent) -> bool {
    &&& a.ban == b.ban && a.invite == b.invite && a.kick == b.kick
    &&& a.redact == b.redact && a.state_default == b.state_default
    &&& a.events_default == b.events_default && a.users_default == b.users_default
    &&& a.notifications_room == b.notifications_room
    &&& a.events@.len() == b.events@.len()
    &&& forall|i: int|
        0 <= i < a.events@.len() ==> #[trigger] a.events@[i].0@ == b.events@[i].0@
            && a.events@[i].1 == b.events@[i].1
}

impl PowerLevelsContent {
    /// The content a room has before any power-levels event: 50 to ban, kick,
    /// redact, send state events and notify the room; 0 for the rest.
    pub fn new() -> (content: PowerLevelsContent)
        ensures
            is_initial_content(content),
    {
        PowerLevelsContent {
            ban: 50,
            invite: 0,
            kick: 50,
            redact: 50,
            state_default: 50,
            events_default: 0,
            users_default: 0,
            notifications_room: 50,
            events: Vec::new(),
        }
    }

    /// A copy of this content.
    pub fn duplicate(&self) -> (copy: PowerLevelsContent)
        ensures
            same_content(copy, *self),
    {
        let mut events: Vec<(String, PowerLevel)> = Vec::new();
        let mut i: usize = 0;
        while i < self.events.len()
            invariant
                i <= self.events@.len(),
                events@.len() == i,
                forall|j: int|
                    0 <= j < i ==> #[trigger] events@[j].0@ == self.events@[j].0@ && events@[j].1
                        == self.events@[j].1,
            decreases self.events@.len() - i,
        {
            let name = self.events[i].0.clone();
            events.push((name, self.events[i].1));
            i = i + 1;
        }
        PowerLevelsContent {
            ban: self.ban,
            invite: self.invite,
            kick: self.kick,
            redact: self.redact,
            state_default: self.state_default,
            events_default: self.events_default,
            users_default: self.users_default,
            notifications_room: self.notifications_room,
            events,
        }
    }
}

/// Contents that agree entry by entry require the same level for every action.
pub proof fn lemma_same_content_same_levels(a: PowerLevelsContent, b: PowerLevelsContent, action: RoomAction)
    requires
        same_content(a, b),
    ensures
        required_level(a, action) == required_level(b, action),
{
    lemma_event_level_agrees(a.events@, b.events@, action_type(action));
}

/// The event type named by an action, or the empty name.
pub open spec fn action_type(action: RoomAction) -> Seq<char> {
    match action {
        RoomAction::StateEvent(t) => t@,
        RoomAction::MessageEvent(t) => t@,
        _ => Seq::empty(),
    }
}

proof fn lemma_event_level_agrees(a: Seq<(String, PowerLevel)>, b: Seq<(String, PowerLevel)>, t: Seq<char>)
    requires
        a.len() == b.len(),
        forall|i: int| 0 <= i < a.len() ==> #[trigger] a[i].0@ == b[i].0@ && a[i].1 == b[i].1,
    ensures
        event_level(a, t) == event_level(b, t),
    decreases a.len(),
{
    if a.len() > 0 {
        assert(a[0].0@ == b[0].0@);
        assert forall|i: int| 0 <= i < a.drop_first().len() implies #[trigger] a.drop_first()[i].0@
            == b.drop_first()[i].0@ && a.drop_first()[i].1 == b.drop_first()[i].1 by {
            assert(a[i + 1].0@ == b[i + 1].0@);
        }
        lemma_event_level_agrees(a.drop_first(), b.drop_first(), t);
    }
}

/// The power levels of a room.
pub struct PowerLevels {
    pub content: PowerLevelsContent,
}

impl PowerLevels {
    pub fn new() -> (levels: PowerLevels)
        ensures
            is_initial_content(levels.content),
    {
        PowerLevels { content: PowerLevelsContent::new() }
    }

    /// A copy of the current power-levels content.
    pub fn power_levels(&self) -> (content: PowerLevelsContent)
        ensures
            same_content(content, self.content),
    {
        self.content.duplicate()
    }

    /// Returns the power level minimally required to perform the given action.
    pub fn min_level_for_room_action(&self, room_action: &RoomAction) -> (level: PowerLevel)
        ensures
            level == required_level(self.content, *room_action),
    {
        min_level_for_room_action(&self.content, room_action)
    }

    /// Whether a member with `power_level` is allowed the given action.
    pub fn is_allowed(&self, power_level: PowerLevel, room_action: &RoomAction) -> (b: bool)
        ensures
            b == allowed(power_level as int, self.content, *room_action),
    {
        power_level >= min_level_for_room_action(&self.content, room_action)
    }

    /// Updates the power levels from the content of a new power-levels event.
    pub fn update_from_event(&mut self, content: PowerLevelsContent)
        ensures
            final(self).content == content,
    {
        self.content = content;
    }
}

} // verus!
