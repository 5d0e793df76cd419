use vstd::prelude::*;

use crate::highlight_flags::{HighlightFlags, HIGHLIGHT_HIGHLIGHT, HIGHLIGHT_NONE};
use crate::room_type::RoomType;
use crate::state_row::Membership;
use crate::event::EventData;
use crate::timeline::{append_fold, day_before, link_items, rows_after_insert, with_dividers, ListChange, Timeline};
use vstd::string::StringSliceAdditionalSpecFns;

use crate::strings::{opt_view, same_chars};

verus! {

/// Whether the user is in the room, invited to it, or left it.
#[derive(Clone, Copy, Debug, PartialEq, Eq, Structural)]
pub enum MembershipKind {
    Joined,
    Invited,
    Left,
}

/// A tag of a room that puts it in a category.
#[derive(Clone, Copy, Debug, PartialEq, Eq, Structural)]
pub enum Tag {
    Favorite,
    LowPriority,
}

/// A request to the homeserver that moves a room to a category.
#[derive(Clone, Copy, Debug, PartialEq, Eq, Structural)]
pub enum RoomOp {
    AcceptInvitation,
    RejectInvitation,
    SetTag(Tag),
    RemoveTag(Tag),
    Leave,
    Join,
}

/// A failed move of a room, shown as "Failed to move <room> from `from` to
/// `to`."
#[derive(Clone, Copy, Debug, PartialEq, Eq, Structural)]
pub struct MoveFailure {
    pub from: RoomType,
    pub to: RoomType,
}

/// The requests, in order, that move a room of membership `membership` from
/// `previous` to `category`; a failed one stops the others.
pub open spec fn category_ops(membership: MembershipKind, previous: RoomType, category: RoomType) -> Seq<RoomOp> {
    match membership {
        MembershipKind::Invited => match category {
            RoomType::Favorite | RoomType::Normal | RoomType::LowPriority => seq![RoomOp::AcceptInvitation],
            RoomType::Left => seq![RoomOp::RejectInvitation],
            _ => seq![],
        },
        MembershipKind::Joined => match category {
            RoomType::Favorite => seq![RoomOp::SetTag(Tag::Favorite)] + if previous == RoomType::LowPriority {
                seq![RoomOp::RemoveTag(Tag::LowPriority)]
            } else {
                seq![]
            },
            RoomType::Normal => match previous {
                RoomType::Favorite => seq![RoomOp::RemoveTag(Tag::Favorite)],
                RoomType::LowPriority => seq![RoomOp::RemoveTag(Tag::LowPriority)],
                _ => seq![],
            },
            RoomType::LowPriority => seq![RoomOp::SetTag(Tag::LowPriority)] + if previous == RoomType::Favorite {
                seq![RoomOp::RemoveTag(Tag::Favorite)]
            } else {
                seq![]
            },
            RoomType::Left => seq![RoomOp::Leave],
            _ => seq![],
        },
        MembershipKind::Left => match category {
            RoomType::Favorite | RoomType::Normal | RoomType::LowPriority => seq![RoomOp::Join],
            _ => seq![],
        },
    }
}

/// Whether a room in category `previous` cannot be moved to `category`: it is
/// there already, it was upgraded, or the target is the invite category.
pub open spec fn move_refused(previous: RoomType, category: RoomType) -> bool {
    previous == category || previous == RoomType::Outdated || category == RoomType::Invited
}

/// The category of a joined room with tags: favorite first, then low
/// priority; normal when it has neither, or its tags could not be had.
pub open spec fn category_from_tags(tags: Option<(bool, bool)>) -> RoomType {
    match tags {
        Some((favorite, low_priority)) => if favorite {
            RoomType::Favorite
        } else if low_priority {
            RoomType::LowPriority
        } else {
            RoomType::Normal
        },
        None => RoomType::Normal,
    }
}

/// Whether a character is white space, as Unicode's `White_Space` property
/// says.
pub open spec fn is_white_space(c: char) -> bool {
    ||| ('\u{9}' <= c && c <= '\u{d}')
    ||| c == ' '
    ||| c == '\u{85}'
    ||| c == '\u{a0}'
    ||| c == '\u{1680}'
    ||| ('\u{2000}' <= c && c <= '\u{200a}')
    ||| c == '\u{2028}'
    ||| c == '\u{2029}'
    ||| c == '\u{202f}'
    ||| c == '\u{205f}'
    ||| c == '\u{3000}'
}

/// Whether a topic has something to show: a character that is not white
/// space.
pub open spec fn shows_topic(t: Seq<char>) -> bool {
    exists|i: int| 0 <= i < t.len() && !is_white_space(#[trigger] t[i])
}

fn white_space(c: char) -> (b: bool)
    ensures
        b == is_white_space(c),
{
    ('\u{9}' <= c && c <= '\u{d}') || c == ' ' || c == '\u{85}' || c == '\u{a0}' || c == '\u{1680}'
        || ('\u{2000}' <= c && c <= '\u{200a}') || c == '\u{2028}' || c == '\u{2029}' || c == '\u{202f}'
        || c == '\u{205f}' || c == '\u{3000}'
}

/// Whether `t` has a character that is not white space.
pub fn has_visible_char(t: &str) -> (b: bool)
    ensures
        b == shows_topic(t@),
{
    let n = t.unicode_len();
    let mut i: usize = 0;
    while i < n
        invariant
            n == t@.len(),
            i <= n,
            forall|j: int| 0 <= j < i ==> is_white_space(#[trigger] t@[j]),
        decreases n - i,
    {
        let c = t.get_char(i);
        if !white_space(c) {
            return true;
        }
        i = i + 1;
    }
    false
}

/// The outcome of asking to store a room's name or topic.
#[derive(Clone, Copy, Debug, PartialEq, Eq, Structural)]
pub enum StoreOutcome {
    /// It is the current one already.
    Unchanged,
    /// Only a member can change it.
    NotJoined,
    /// A room name longer than 255 bytes.
    Invalid,
    /// It is sent to the homeserver.
    Send,
}

/// The largest room name, in bytes.
pub const MAX_ROOM_NAME_BYTES: usize = 255;

/// What an invitation that failed for some users says.
#[derive(Clone, Copy, Debug, PartialEq, Eq, Structural)]
pub enum InviteFailure {
    /// "Failed to invite <widget> to <widget>. Try again later."
    One,
    /// "Failed to invite <widget> and some other user to <widget>. Try again later."
    Two,
    /// "Failed to invite <widget> and some other users to <widget>. Try again later."
    Many,
}

/// How many results are failures.
pub open spec fn failures(results: Seq<bool>) -> nat
    decreases results.len(),
{
    if results.len() == 0 {
        0
    } else {
        failures(results.drop_last()) + if results.last() { 0nat } else { 1nat }
    }
}

/// The first failure among the results.
pub open spec fn first_failure(results: Seq<bool>) -> Option<int>
    decreases results.len(),
{
    if results.len() == 0 {
        None
    } else {
        match first_failure(results.drop_last()) {
            Some(i) => Some(i),
            None => if !results.last() {
                Some(results.len() - 1)
            } else {
                None
            },
        }
    }
}

/// The kind of a synced room event, as the room reads it.
#[derive(Clone, Copy, Debug, PartialEq, Eq, Structural)]
pub enum SyncEventKind {
    Member(Membership),
    Avatar,
    Name,
    Topic,
    PowerLevels,
    Tombstone,
    Other,
}

/// A synced room event: its kind and when the server received it, in
/// milliseconds since the epoch.
#[derive(Clone, Copy, Debug, PartialEq, Eq, Structural)]
pub struct SyncEvent {
    pub kind: SyncEventKind,
    pub timestamp: i64,
}

/// What a room does for an event of a batch, with the event's place in the
/// batch.
#[derive(Clone, Copy, Debug, PartialEq, Eq, Structural)]
pub enum RoomUpdate {
    UpdateMember(usize),
    SetAvatar(usize),
    LoadDisplayName,
    NotifyTopic,
    UpdatePowerLevels(usize),
    LoadSuccessor,
}

/// What the room does for the event at place `i` of kind `kind`.
pub open spec fn update_for(kind: SyncEventKind, i: usize) -> Option<RoomUpdate> {
    match kind {
        SyncEventKind::Member(_) => Some(RoomUpdate::UpdateMember(i)),
        SyncEventKind::Avatar => Some(RoomUpdate::SetAvatar(i)),
        SyncEventKind::Name => Some(RoomUpdate::LoadDisplayName),
        SyncEventKind::Topic => Some(RoomUpdate::NotifyTopic),
        SyncEventKind::PowerLevels => Some(RoomUpdate::UpdatePowerLevels(i)),
        SyncEventKind::Tombstone => Some(RoomUpdate::LoadSuccessor),
        SyncEventKind::Other => None,
    }
}

/// The updates of a batch, in order; events that could not be read are
/// skipped.
pub open spec fn updates_of(batch: Seq<Option<SyncEvent>>) -> Seq<RoomUpdate>
    decreases batch.len(),
{
    if batch.len() == 0 {
        seq![]
    } else {
        let before = updates_of(batch.drop_last());
        match batch.last() {
            Some(e) => match update_for(e.kind, (batch.len() - 1) as usize) {
                Some(u) => before.push(u),
                None => before,
            },
            None => before,
        }
    }
}

/// Whether an event says that someone joined or left: those do not count as
/// changes of the room.
pub open spec fn is_join_or_leave(kind: SyncEventKind) -> bool {
    kind == SyncEventKind::Member(Membership::Join) || kind == SyncEventKind::Member(Membership::Leave)
}

/// The later of two optional times, where no time is before any time.
pub open spec fn later(a: Option<i64>, b: Option<i64>) -> Option<i64> {
    match (a, b) {
        (None, _) => b,
        (_, None) => a,
        (Some(x), Some(y)) => if x >= y { a } else { b },
    }
}

/// The time of the latest change after a batch: the latest time among the
/// previous one and those of the events that are neither joins nor leaves.
pub open spec fn latest_after(latest: Option<i64>, batch: Seq<Option<SyncEvent>>) -> Option<i64>
    decreases batch.len(),
{
    if batch.len() == 0 {
        latest
    } else {
        let before = latest_after(latest, batch.drop_last());
        match batch.last() {
            Some(e) => if is_join_or_leave(e.kind) {
                before
            } else {
                later(before, Some(e.timestamp))
            },
            None => before,
        }
    }
}

/// A stripped state event of an invite: its sender, and its membership and
/// state key when it is a member event.
#[derive(Clone, Debug)]
pub struct StrippedEvent {
    pub sender: String,
    pub member: Option<(Membership, String)>,
}

/// Whether `e` invites the user `user`.
pub open spec fn invites(e: StrippedEvent, user: Seq<char>) -> bool {
    e.member matches Some((m, key)) && m == Membership::Invite && key@ == user
}

/// Whether `e` is a member event sent by `sender`.
pub open spec fn member_event_from(e: StrippedEvent, sender: Seq<char>) -> bool {
    e.member is Some && e.sender@ == sender
}

/// The first place in `events` where `p` holds.
pub open spec fn first_where(events: Seq<StrippedEvent>, p: spec_fn(StrippedEvent) -> bool) -> Option<int>
    decreases events.len(),
{
    if events.len() == 0 {
        None
    } else {
        match first_where(events.drop_last(), p) {
            Some(i) => Some(i),
            None => if p(events.last()) {
                Some(events.len() - 1)
            } else {
                None
            },
        }
    }
}

proof fn lemma_first_where_prefix(events: Seq<StrippedEvent>, p: spec_fn(StrippedEvent) -> bool, n: int)
    requires
        0 < n <= events.len(),
        p(events[n - 1]),
        first_where(events.take(n - 1), p) is None,
    ensures
        first_where(events, p) == Some(n - 1),
    decreases events.len(),
{
    if n < events.len() {
        assert(events.drop_last().take(n - 1) =~= events.take(n - 1));
        lemma_first_where_prefix(events.drop_last(), p, n);
    } else {
        assert(events.take(n - 1) =~= events.drop_last());
    }
}

proof fn lemma_first_where_step(events: Seq<StrippedEvent>, p: spec_fn(StrippedEvent) -> bool, n: int)
    requires
        0 <= n < events.len(),
        !p(events[n]),
        first_where(events.take(n), p) is None,
    ensures
        first_where(events.take(n + 1), p) is None,
{
    assert(events.take(n + 1).drop_last() =~= events.take(n));
}

proof fn lemma_first_where_some(events: Seq<StrippedEvent>, p: spec_fn(StrippedEvent) -> bool)
    ensures
        first_where(events, p) matches Some(i) ==> 0 <= i < events.len() && p(events[i]),
        (exists|k: int| 0 <= k < events.len() && p(#[trigger] events[k])) ==> first_where(events, p) is Some,
    decreases events.len(),
{
    if events.len() > 0 {
        lemma_first_where_some(events.drop_last(), p);
        if exists|k: int| 0 <= k < events.len() && p(#[trigger] events[k]) {
            let k = choose|k: int| 0 <= k < events.len() && p(#[trigger] events[k]);
            if k < events.len() - 1 {
                assert(events.drop_last()[k] == events[k]);
            }
        }
    }
}

/// A Matrix room as the sidebar and the room history see it.
pub struct Room {
    /// The kind of the room as the homeserver last told it, once it did.
    matrix_room: Option<MembershipKind>,
    /// The category of the room.
    category: RoomType,
    /// The display name of the room, once it was loaded.
    name: Option<String>,
    /// The number of unread messages that highlight the user.
    highlight_count: u64,
    /// The topic the homeserver gives.
    topic: Option<String>,
    /// When the room last changed, in milliseconds since the epoch.
    latest_change: Option<i64>,
    /// The room that replaces this one, once it was upgraded.
    successor: Option<String>,
    /// The room this one replaces.
    predecessor: Option<String>,
    /// Who invited the user, when the user is invited.
    inviter: Option<String>,
}

impl Room {
    pub closed spec fn membership(&self) -> Option<MembershipKind> {
        self.matrix_room
    }

    pub closed spec fn category_view(&self) -> RoomType {
        self.category
    }

    pub closed spec fn name_view(&self) -> Option<Seq<char>> {
        opt_view(self.name)
    }

    pub closed spec fn highlight_count_view(&self) -> u64 {
        self.highlight_count
    }

    pub closed spec fn topic_view(&self) -> Option<Seq<char>> {
        opt_view(self.topic)
    }

    pub closed spec fn latest_change_view(&self) -> Option<i64> {
        self.latest_change
    }

    pub closed spec fn successor_view(&self) -> Option<Seq<char>> {
        opt_view(self.successor)
    }

    pub closed spec fn predecessor_view(&self) -> Option<Seq<char>> {
        opt_view(self.predecessor)
    }

    pub closed spec fn inviter_view(&self) -> Option<Seq<char>> {
        opt_view(self.inviter)
    }

    /// A room the homeserver has not told about yet.
    pub fn new() -> (r: Room)
        ensures
            r.membership() is None,
            r.category_view() == RoomType::Normal,
            r.name_view() is None,
            r.highlight_count_view() == 0,
            r.topic_view() is None,
            r.latest_change_view() is None,
            r.successor_view() is None,
            r.predecessor_view() is None,
            r.inviter_view() is None,
    {
        Room {
            matrix_room: None,
            category: RoomType::default_type(),
            name: None,
            highlight_count: 0,
            topic: None,
            latest_change: None,
            successor: None,
            predecessor: None,
            inviter: None,
        }
    }

    /// Sets the kind of room the homeserver gives, and the room's counts and
    /// topic. Returns whether the kind changed, or was set for the first time:
    /// then the display name, predecessor, successor and category are loaded
    /// anew.
    pub fn set_matrix_room(&mut self, kind: MembershipKind, highlight_count: u64, topic: Option<String>) -> (changed: bool)
        ensures
            changed == (old(self).membership() != Some(kind)),
            final(self).membership() == Some(kind),
            final(self).highlight_count_view() == highlight_count,
            final(self).topic_view() == opt_view(topic),
            final(self).category_view() == old(self).category_view(),
            final(self).name_view() == old(self).name_view(),
            final(self).latest_change_view() == old(self).latest_change_view(),
            final(self).successor_view() == old(self).successor_view(),
            final(self).predecessor_view() == old(self).predecessor_view(),
            final(self).inviter_view() == old(self).inviter_view(),
    {
        let changed = match self.matrix_room {
            Some(old_kind) => old_kind != kind,
            None => true,
        };
        self.matrix_room = Some(kind);
        self.highlight_count = highlight_count;
        self.topic = topic;
        changed
    }

    /// The category of this room.
    pub fn category(&self) -> (c: RoomType)
        ensures
            c == self.category_view(),
    {
        self.category
    }

    fn set_category_internal(&mut self, category: RoomType)
        ensures
            final(self).category_view() == category,
            final(self).membership() == old(self).membership(),
            final(self).name_view() == old(self).name_view(),
            final(self).highlight_count_view() == old(self).highlight_count_view(),
            final(self).topic_view() == old(self).topic_view(),
            final(self).latest_change_view() == old(self).latest_change_view(),
            final(self).successor_view() == old(self).successor_view(),
            final(self).predecessor_view() == old(self).predecessor_view(),
            final(self).inviter_view() == old(self).inviter_view(),
    {
        self.category = category;
    }

    /// Set the category of this room.
    ///
    /// Returns the requests that propagate the category to the homeserver, in
    /// order, or `None` where the room cannot be moved there: rooms can't be
    /// moved to the invite category and they can't be moved once they are
    /// upgraded. An upgraded room needs no request. The category is set at
    /// once; where a request fails, the category is to be loaded again.
    pub fn set_category(&mut self, category: RoomType) -> (ops: Option<Vec<RoomOp>>)
        requires
            old(self).membership() is Some,
        ensures
            move_refused(old(self).category_view(), category) ==> ops is None
                && final(self).category_view() == old(self).category_view(),
            !move_refused(old(self).category_view(), category) ==> final(self).category_view() == category
                && (ops matches Some(v) && v@ == if category == RoomType::Outdated {
                    Seq::<RoomOp>::empty()
                } else {
                    category_ops(old(self).membership()->0, old(self).category_view(), category)
                }),
            final(self).membership() == old(self).membership(),
            final(self).name_view() == old(self).name_view(),
            final(self).successor_view() == old(self).successor_view(),
            final(self).latest_change_view() == old(self).latest_change_view(),
    {
        let membership = match self.matrix_room {
            Some(m) => m,
            None => MembershipKind::Joined,
        };
        let previous = self.category;
        if previous == category || previous == RoomType::Outdated || category == RoomType::Invited {
            return None;
        }
        let mut ops: Vec<RoomOp> = Vec::new();
        if category != RoomType::Outdated {
            match membership {
                MembershipKind::Invited => {
                    match category {
                        RoomType::Favorite | RoomType::Normal | RoomType::LowPriority => ops.push(RoomOp::AcceptInvitation),
                        RoomType::Left => ops.push(RoomOp::RejectInvitation),
                        _ => {},
                    }
                },
                MembershipKind::Joined => {
                    match category {
                        RoomType::Favorite => {
                            ops.push(RoomOp::SetTag(Tag::Favorite));
                            if previous == RoomType::LowPriority {
                                ops.push(RoomOp::RemoveTag(Tag::LowPriority));
                            }
                        },
                        RoomType::Normal => {
                            match previous {
                                RoomType::Favorite => ops.push(RoomOp::RemoveTag(Tag::Favorite)),
                                RoomType::LowPriority => ops.push(RoomOp::RemoveTag(Tag::LowPriority)),
                                _ => {},
                            }
                        },
                        RoomType::LowPriority => {
                            ops.push(RoomOp::SetTag(Tag::LowPriority));
                            if previous == RoomType::Favorite {
                                ops.push(RoomOp::RemoveTag(Tag::Favorite));
                            }
                        },
                        RoomType::Left => ops.push(RoomOp::Leave),
                        _ => {},
                    }
                },
                MembershipKind::Left => {
                    match category {
                        RoomType::Favorite | RoomType::Normal | RoomType::LowPriority => ops.push(RoomOp::Join),
                        _ => {},
                    }
                },
            }
        }
        assert(ops@ =~= if category == RoomType::Outdated {
            Seq::<RoomOp>::empty()
        } else {
            category_ops(membership, previous, category)
        });
        self.set_category_internal(category);
        Some(ops)
    }

    /// Loads the category from what the homeserver says of the room: an
    /// upgraded room keeps its category; an invited or left room goes to that
    /// category. Returns whether the tags of a joined room are to be fetched,
    /// to be given to `apply_tags`.
    pub fn load_category(&mut self) -> (fetch_tags: bool)
        requires
            old(self).membership() is Some,
        ensures
            fetch_tags == (old(self).category_view() != RoomType::Outdated
                && old(self).membership() == Some(MembershipKind::Joined)),
            final(self).category_view() == if old(self).category_view() == RoomType::Outdated {
                RoomType::Outdated
            } else {
                match old(self).membership()->0 {
                    MembershipKind::Invited => RoomType::Invited,
                    MembershipKind::Left => RoomType::Left,
                    MembershipKind::Joined => old(self).category_view(),
                }
            },
            final(self).membership() == old(self).membership(),
            final(self).successor_view() == old(self).successor_view(),
    {
        if self.category == RoomType::Outdated {
            return false;
        }
        match self.matrix_room {
            Some(MembershipKind::Joined) => true,
            Some(MembershipKind::Invited) => {
                self.set_category_internal(RoomType::Invited);
                false
            },
            Some(MembershipKind::Left) => {
                self.set_category_internal(RoomType::Left);
                false
            },
            None => false,
        }
    }

    /// Takes a synced batch into the room and its timeline: `batch` is what
    /// the room reads of each event, `events` the events themselves. The
    /// room does what `append_events` does, and the timeline gets the whole
    /// batch at its end, as `Timeline::append` takes it. The room's order in
    /// the room list is then to be checked once. Returns the room's updates
    /// and the change of the timeline's rows.
    pub fn append_to_timeline(&mut self, timeline: &mut Timeline, batch: &Vec<Option<SyncEvent>>, events: Vec<EventData>) -> (r: (Vec<RoomUpdate>, Option<ListChange>))
        requires
            old(timeline).wf(),
        ensures
            r.0@ == updates_of(batch@),
            final(self).latest_change_view() == latest_after(old(self).latest_change_view(), batch@),
            final(self).category_view() == old(self).category_view(),
            final(self).membership() == old(self).membership(),
            final(self).name_view() == old(self).name_view(),
            final(self).successor_view() == old(self).successor_view(),
            final(timeline).wf(),
            events@.len() == 0 ==> r.1 is None && *final(timeline) == *old(timeline),
            events@.len() > 0 ==> {
                let st = append_fold(old(timeline).stage(seq![]), events@);
                let position = old(timeline).items().len() as int;
                let rd = with_dividers(st.0, st.5, day_before(st.0, old(timeline).items(), position));
                &&& final(timeline).datas() == st.0
                &&& final(timeline).ids() == st.2
                &&& final(timeline).pending() == st.4
                &&& final(timeline).items() == rows_after_insert(st.0, old(timeline).items(), position, st.5)
                &&& (final(timeline).rels(), final(timeline).waiting()) == link_items(st.1, st.3, st.2, st.0, rd)
                &&& r.1 == Some(ListChange { position: position as usize, removed: 0, added: rd.len() as usize })
            },
    {
        let updates = self.append_events(batch);
        let change = timeline.append(events);
        (updates, change)
    }

    /// A request that moved the room from `from` to `to` failed: the error
    /// to show names both categories, and the category is loaded again, as
    /// `load_category` does. Returns the error and whether the tags of a
    /// joined room are to be fetched.
    pub fn category_request_failed(&mut self, from: RoomType, to: RoomType) -> (r: (MoveFailure, bool))
        requires
            old(self).membership() is Some,
        ensures
            r.0 == (MoveFailure { from, to }),
            r.1 == (old(self).category_view() != RoomType::Outdated
                && old(self).membership() == Some(MembershipKind::Joined)),
            final(self).category_view() == if old(self).category_view() == RoomType::Outdated {
                RoomType::Outdated
            } else {
                match old(self).membership()->0 {
                    MembershipKind::Invited => RoomType::Invited,
                    MembershipKind::Left => RoomType::Left,
                    MembershipKind::Joined => old(self).category_view(),
                }
            },
            final(self).membership() == old(self).membership(),
            final(self).successor_view() == old(self).successor_view(),
    {
        let fetch_tags = self.load_category();
        (MoveFailure { from, to }, fetch_tags)
    }

    /// The request that accepts the invite to this room; none where the room
    /// is not one the user is invited to.
    pub fn accept_invite(&self) -> (op: Option<RoomOp>)
        ensures
            op == if self.membership() == Some(MembershipKind::Invited) {
                Some(RoomOp::AcceptInvitation)
            } else {
                None::<RoomOp>
            },
    {
        match self.matrix_room {
            Some(MembershipKind::Invited) => Some(RoomOp::AcceptInvitation),
            _ => None,
        }
    }

    /// The request that rejects the invite to this room; none where the room
    /// is not one the user is invited to.
    pub fn reject_invite(&self) -> (op: Option<RoomOp>)
        ensures
            op == if self.membership() == Some(MembershipKind::Invited) {
                Some(RoomOp::RejectInvitation)
            } else {
                None::<RoomOp>
            },
    {
        match self.matrix_room {
            Some(MembershipKind::Invited) => Some(RoomOp::RejectInvitation),
            _ => None,
        }
    }

    /// Sets the category of a joined room from its tags, by whether it is a
    /// favorite and whether it has low priority, or `None` when they could not
    /// be had.
    pub fn apply_tags(&mut self, tags: Option<(bool, bool)>)
        ensures
            final(self).category_view() == category_from_tags(tags),
            final(self).membership() == old(self).membership(),
            final(self).successor_view() == old(self).successor_view(),
    {
        let category = match tags {
            Some((favorite, low_priority)) => {
                if favorite {
                    RoomType::Favorite
                } else if low_priority {
                    RoomType::LowPriority
                } else {
                    RoomType::Normal
                }
            },
            None => RoomType::Normal,
        };
        self.set_category_internal(category);
    }

    /// Whether the room can be forgotten: only a room that is left.
    pub fn forget(&self) -> (allowed: bool)
        requires
            self.category_view() == RoomType::Left ==> self.membership() == Some(MembershipKind::Left),
        ensures
            allowed == (self.category_view() == RoomType::Left),
    {
        self.category == RoomType::Left
    }

    /// How the room is highlighted: when a message highlights the user.
    pub fn highlight(&self) -> (f: HighlightFlags)
        ensures
            f.bits == if self.highlight_count_view() > 0 { HIGHLIGHT_HIGHLIGHT } else { HIGHLIGHT_NONE },
    {
        if self.highlight_count > 0 {
            HighlightFlags::highlight()
        } else {
            HighlightFlags::none()
        }
    }

    /// The display name, once loaded; a room without one is shown as
    /// "Unknown".
    pub fn display_name(&self) -> (n: Option<String>)
        ensures
            opt_view(n) == self.name_view(),
    {
        match &self.name {
            Some(n) => Some(n.clone()),
            None => None,
        }
    }

    /// Sets the display name that was loaded.
    pub fn set_display_name(&mut self, display_name: Option<String>)
        ensures
            final(self).name_view() == opt_view(display_name),
            final(self).category_view() == old(self).category_view(),
            final(self).membership() == old(self).membership(),
    {
        self.name = display_name;
    }

    /// What becomes of the name `room_name`: nothing when it is the current
    /// one, nor when the user is not a member, nor when it is longer than 255
    /// bytes; else it is sent.
    pub open spec fn name_outcome(&self, room_name: &str) -> StoreOutcome {
        if self.name_view() == Some(room_name@) {
            StoreOutcome::Unchanged
        } else if self.membership() != Some(MembershipKind::Joined) {
            StoreOutcome::NotJoined
        } else if room_name.len() > MAX_ROOM_NAME_BYTES {
            StoreOutcome::Invalid
        } else {
            StoreOutcome::Send
        }
    }

    /// What becomes of the topic `topic`: nothing when it is the current one
    /// that is shown, nor when the user is not a member; else it is sent.
    pub open spec fn topic_outcome(&self, topic: Seq<char>) -> StoreOutcome {
        if (match self.topic_view() {
            Some(s) => s.len() > 0 && shows_topic(s) && s == topic,
            None => false,
        }) {
            StoreOutcome::Unchanged
        } else if self.membership() != Some(MembershipKind::Joined) {
            StoreOutcome::NotJoined
        } else {
            StoreOutcome::Send
        }
    }

    /// Whether the name `room_name` is to be sent to the homeserver: not when
    /// it is the current one, nor when the user is not a member, nor when it is
    /// longer than 255 bytes.
    pub fn store_room_name(&self, room_name: &str) -> (o: StoreOutcome)
        requires
            self.membership() is Some,
        ensures
            o == self.name_outcome(room_name),
    {
        if let Some(n) = &self.name {
            if same_chars(n.as_str(), room_name) {
                return StoreOutcome::Unchanged;
            }
        }
        match self.matrix_room {
            Some(MembershipKind::Joined) => {},
            _ => {
                return StoreOutcome::NotJoined;
            },
        }
        if room_name.len() > MAX_ROOM_NAME_BYTES {
            StoreOutcome::Invalid
        } else {
            StoreOutcome::Send
        }
    }

    /// The topic, where it has something to show.
    pub fn topic(&self) -> (t: Option<String>)
        ensures
            opt_view(t) == match self.topic_view() {
                Some(s) if s.len() > 0 && shows_topic(s) => Some(s),
                _ => None,
            },
    {
        match &self.topic {
            Some(s) => {
                if !s.as_str().is_empty() && has_visible_char(s.as_str()) {
                    Some(s.clone())
                } else {
                    None
                }
            },
            None => None,
        }
    }

    /// Whether the topic `topic` is to be sent to the homeserver: not when it
    /// is the current one, nor when the user is not a member.
    pub fn store_topic(&self, topic: &str) -> (o: StoreOutcome)
        requires
            self.membership() is Some,
        ensures
            o == self.topic_outcome(topic@),
    {
        if let Some(current) = self.topic() {
            if same_chars(current.as_str(), topic) {
                return StoreOutcome::Unchanged;
            }
        }
        match self.matrix_room {
            Some(MembershipKind::Joined) => StoreOutcome::Send,
            _ => StoreOutcome::NotJoined,
        }
    }

    /// When the room last changed.
    pub fn latest_change(&self) -> (t: Option<i64>)
        ensures
            t == self.latest_change_view(),
    {
        self.latest_change
    }

    /// Takes a batch of synced events, some of which could not be read:
    /// returns what the room does for them, in order, and moves the time of the
    /// latest change to the latest event that is neither a join nor a leave.
    pub fn append_events(&mut self, batch: &Vec<Option<SyncEvent>>) -> (updates: Vec<RoomUpdate>)
        ensures
            updates@ == updates_of(batch@),
            final(self).latest_change_view() == latest_after(old(self).latest_change_view(), batch@),
            final(self).category_view() == old(self).category_view(),
            final(self).membership() == old(self).membership(),
            final(self).name_view() == old(self).name_view(),
            final(self).successor_view() == old(self).successor_view(),
    {
        let mut updates: Vec<RoomUpdate> = Vec::new();
        let mut latest = self.latest_change;
        let mut i: usize = 0;
        while i < batch.len()
            invariant
                i <= batch@.len(),
                updates@ == updates_of(batch@.take(i as int)),
                latest == latest_after(old(self).latest_change_view(), batch@.take(i as int)),
            decreases batch@.len() - i,
        {
            assert(batch@.take(i + 1).drop_last() =~= batch@.take(i as int));
            assert(batch@.take(i + 1).last() == batch@[i as int]);
            if let Some(e) = batch[i] {
                match e.kind {
                    SyncEventKind::Member(_) => updates.push(RoomUpdate::UpdateMember(i)),
                    SyncEventKind::Avatar => updates.push(RoomUpdate::SetAvatar(i)),
                    SyncEventKind::Name => updates.push(RoomUpdate::LoadDisplayName),
                    SyncEventKind::Topic => updates.push(RoomUpdate::NotifyTopic),
                    SyncEventKind::PowerLevels => updates.push(RoomUpdate::UpdatePowerLevels(i)),
                    SyncEventKind::Tombstone => updates.push(RoomUpdate::LoadSuccessor),
                    SyncEventKind::Other => {},
                }
                let join_or_leave = match e.kind {
                    SyncEventKind::Member(Membership::Join) | SyncEventKind::Member(Membership::Leave) => true,
                    _ => false,
                };
                if !join_or_leave {
                    latest = match latest {
                        None => Some(e.timestamp),
                        Some(x) => if x >= e.timestamp {
                            Some(x)
                        } else {
                            Some(e.timestamp)
                        },
                    };
                }
            }
            i = i + 1;
        }
        assert(batch@.take(batch@.len() as int) =~= batch@);
        self.latest_change = latest;
        updates
    }

    /// The user who invited the session's user `own_user`, from the invite's
    /// stripped state events.
    pub fn inviter(&self) -> (i: Option<String>)
        ensures
            opt_view(i) == self.inviter_view(),
    {
        match &self.inviter {
            Some(s) => Some(s.clone()),
            None => None,
        }
    }

    /// Takes the stripped state events of an invite to the user `own_user`:
    /// the inviter is the sender of the event that invites the user. Returns
    /// the place of the first member event the inviter sent, which describes
    /// them, if there is one.
    pub fn handle_invite_events(&mut self, events: &Vec<StrippedEvent>, own_user: &str) -> (inviter_event: Option<usize>)
        requires
            exists|k: int| 0 <= k < events@.len() && invites(#[trigger] events@[k], own_user@),
        ensures
            ({
                let p = |e: StrippedEvent| invites(e, own_user@);
                let invite = first_where(events@, p)->0;
                let inviter = events@[invite].sender@;
                &&& first_where(events@, p) is Some
                &&& final(self).inviter_view() == Some(inviter)
                &&& match first_where(events@, |e: StrippedEvent| member_event_from(e, inviter)) {
                    Some(j) => inviter_event == Some(j as usize),
                    None => inviter_event is None,
                }
            }),
            final(self).category_view() == old(self).category_view(),
            final(self).membership() == old(self).membership(),
    {
        let ghost p = |e: StrippedEvent| invites(e, own_user@);
        proof {
            lemma_first_where_some(events@, p);
        }
        let mut i: usize = 0;
        let mut found: Option<usize> = None;
        while i < events.len() && found.is_none()
            invariant
                i <= events@.len(),
                p == (|e: StrippedEvent| invites(e, own_user@)),
                found is None ==> first_where(events@.take(i as int), p) is None,
                found matches Some(k) ==> first_where(events@, p) == Some(k as int),
            decreases events@.len() - i + (if found is None { 1int } else { 0int }),
        {
            let matched = match &events[i].member {
                Some((m, key)) => *m == Membership::Invite && same_chars(key.as_str(), own_user),
                None => false,
            };
            if matched {
                proof {
                    lemma_first_where_prefix(events@, p, i + 1);
                }
                found = Some(i);
            } else {
                proof {
                    lemma_first_where_step(events@, p, i as int);
                }
                i = i + 1;
            }
        }
        let invite = match found {
            Some(k) => k,
            None => {
                proof {
                    assert(events@.take(i as int) =~= events@);
                }
                0
            },
        };
        let inviter = events[invite].sender.clone();
        let ghost inviter_view = inviter@;
        let ghost q = |e: StrippedEvent| member_event_from(e, inviter_view);
        proof {
            lemma_first_where_some(events@, q);
        }
        let mut j: usize = 0;
        let mut result: Option<usize> = None;
        while j < events.len() && result.is_none()
            invariant
                j <= events@.len(),
                inviter@ == inviter_view,
                q == (|e: StrippedEvent| member_event_from(e, inviter_view)),
                result is None ==> first_where(events@.take(j as int), q) is None,
                result matches Some(k) ==> first_where(events@, q) == Some(k as int),
            decreases events@.len() - j + (if result is None { 1int } else { 0int }),
        {
            let matched = events[j].member.is_some() && events[j].sender == inviter;
            if matched {
                proof {
                    lemma_first_where_prefix(events@, q, j + 1);
                }
                result = Some(j);
            } else {
                proof {
                    lemma_first_where_step(events@, q, j as int);
                }
                j = j + 1;
            }
        }
        if result.is_none() {
            assert(events@.take(j as int) =~= events@);
        }
        self.inviter = Some(inviter);
        result
    }

    /// Takes the room that replaces this one, from its tombstone: the first
    /// time there is one, it is kept and the room becomes outdated. Returns
    /// whether it was.
    pub fn load_successor(&mut self, replacement_room: Option<String>) -> (loaded: bool)
        ensures
            loaded == (old(self).successor_view() is None && replacement_room is Some),
            loaded ==> final(self).successor_view() == opt_view(replacement_room)
                && final(self).category_view() == RoomType::Outdated,
            !loaded ==> final(self).successor_view() == old(self).successor_view()
                && final(self).category_view() == old(self).category_view(),
            final(self).membership() == old(self).membership(),
    {
        if self.successor.is_some() {
            return false;
        }
        match replacement_room {
            Some(room_id) => {
                self.successor = Some(room_id);
                self.set_category_internal(RoomType::Outdated);
                true
            },
            None => false,
        }
    }

    /// Takes the room this one replaces, from its creation event, the first
    /// time there is one. Returns whether it was kept.
    pub fn load_predecessor(&mut self, predecessor: Option<String>) -> (loaded: bool)
        ensures
            loaded == (old(self).predecessor_view() is None && predecessor is Some),
            loaded ==> final(self).predecessor_view() == opt_view(predecessor),
            !loaded ==> final(self).predecessor_view() == old(self).predecessor_view(),
            final(self).category_view() == old(self).category_view(),
            final(self).successor_view() == old(self).successor_view(),
    {
        if self.predecessor.is_some() {
            return false;
        }
        match predecessor {
            Some(room_id) => {
                self.predecessor = Some(room_id);
                true
            },
            None => false,
        }
    }

    /// The room that replaces this one.
    pub fn successor(&self) -> (s: Option<String>)
        ensures
            opt_view(s) == self.successor_view(),
    {
        match &self.successor {
            Some(s) => Some(s.clone()),
            None => None,
        }
    }

    /// The room this one replaces.
    pub fn predecessor(&self) -> (s: Option<String>)
        ensures
            opt_view(s) == self.predecessor_view(),
    {
        match &self.predecessor {
            Some(s) => Some(s.clone()),
            None => None,
        }
    }

    /// What an invitation says when some invites failed, given whether each
    /// user's invite went through: nothing when none failed; else the place
    /// of the first user whose invite failed, and how the message counts the
    /// others. Only a joined room invites.
    pub fn invite(&self, results: &Vec<bool>) -> (r: Option<(usize, InviteFailure)>)
        ensures
            self.membership() != Some(MembershipKind::Joined) || failures(results@) == 0 ==> r is None,
            self.membership() == Some(MembershipKind::Joined) && failures(results@) > 0 ==> (r matches Some((i, f))
                && Some(i as int) == first_failure(results@)
                && f == if failures(results@) == 1 {
                    InviteFailure::One
                } else if failures(results@) == 2 {
                    InviteFailure::Two
                } else {
                    InviteFailure::Many
                }),
    {
        match self.matrix_room {
            Some(MembershipKind::Joined) => {},
            _ => {
                return None;
            },
        }
        let mut count: usize = 0;
        let mut first: Option<usize> = None;
        let mut i: usize = 0;
        while i < results.len()
            invariant
                i <= results@.len(),
                count == failures(results@.take(i as int)),
                count <= i,
                match first_failure(results@.take(i as int)) {
                    Some(k) => first == Some(k as usize) && 0 <= k < i,
                    None => first is None,
                },
            decreases results@.len() - i,
        {
            assert(results@.take(i + 1).drop_last() =~= results@.take(i as int));
            if !results[i] {
                count = count + 1;
                if first.is_none() {
                    first = Some(i);
                }
            }
            i = i + 1;
        }
        assert(results@.take(results@.len() as int) =~= results@);
        proof {
            lemma_no_first_no_failures(results@);
        }
        match first {
            Some(f) => {
                let kind = if count == 1 {
                    InviteFailure::One
                } else if count == 2 {
                    InviteFailure::Two
                } else {
                    InviteFailure::Many
                };
                Some((f, kind))
            },
            None => {
                proof {
                    lemma_no_first_no_failures(results@);
                }
                None
            },
        }
    }
}

proof fn lemma_no_first_no_failures(results: Seq<bool>)
    ensures
        first_failure(results) is None <==> failures(results) == 0,
    decreases results.len(),
{
    if results.len() > 0 {
        lemma_no_first_no_failures(results.drop_last());
    }
}

/// The tags of a room, whether favorite and whether low priority, after a
/// request.
pub open spec fn tags_after(tags: (bool, bool), op: RoomOp) -> (bool, bool) {
    match op {
        RoomOp::SetTag(Tag::Favorite) => (true, tags.1),
        RoomOp::SetTag(Tag::LowPriority) => (tags.0, true),
        RoomOp::RemoveTag(Tag::Favorite) => (false, tags.1),
        RoomOp::RemoveTag(Tag::LowPriority) => (tags.0, false),
        _ => tags,
    }
}

/// The tags of a room after the requests `ops`, in order.
pub open spec fn tags_after_all(tags: (bool, bool), ops: Seq<RoomOp>) -> (bool, bool)
    decreases ops.len(),
{
    if ops.len() == 0 {
        tags
    } else {
        tags_after(tags_after_all(tags, ops.drop_last()), ops.last())
    }
}

/// The tags of a room in a category.
pub open spec fn tags_of(category: RoomType) -> (bool, bool) {
    (category == RoomType::Favorite, category == RoomType::LowPriority)
}

/// Whether a joined room can be in the category by its tags.
pub open spec fn tagged_category(category: RoomType) -> bool {
    category == RoomType::Favorite || category == RoomType::Normal || category == RoomType::LowPriority
}

/// Moving a joined room between the favorite, normal and low priority
/// categories sets and removes its tags so that loading its category from the
/// tags gives the new category back.
pub proof fn lemma_moved_category_loads_back(previous: RoomType, category: RoomType)
    requires
        tagged_category(previous),
        tagged_category(category),
    ensures
        category_from_tags(Some(tags_after_all(tags_of(previous), category_ops(MembershipKind::Joined, previous, category))))
            == category,
{
    reveal_with_fuel(tags_after_all, 3);
    let ops = category_ops(MembershipKind::Joined, previous, category);
    if ops.len() == 2 {
        assert(ops.drop_last() =~= seq![ops[0]]);
        assert(seq![ops[0]].drop_last() =~= Seq::<RoomOp>::empty());
    } else if ops.len() == 1 {
        assert(ops.drop_last() =~= Seq::<RoomOp>::empty());
    }
}

/// The time of the latest change never goes back.
pub proof fn lemma_latest_change_monotone(latest: Option<i64>, batch: Seq<Option<SyncEvent>>)
    ensures
        latest matches Some(x) ==> (latest_after(latest, batch) matches Some(y) && y >= x),
    decreases batch.len(),
{
    if batch.len() > 0 {
        lemma_latest_change_monotone(latest, batch.drop_last());
    }
}

/// What a room does for the event `e` arriving after the batch `before`:
/// a member event updates that member, an avatar event sets the avatar, a
/// name event reloads the display name, a topic event tells of the new
/// topic, a power-levels event updates the power levels, and a tombstone
/// loads the room that replaces this one; each one update, after those of
/// the events before it. Other events and unreadable ones change nothing.
pub proof fn lemma_updates_per_event(before: Seq<Option<SyncEvent>>, e: SyncEvent)
    ensures
        ({
            let i = before.len() as usize;
            let u = updates_of(before.push(Some(e)));
            let u0 = updates_of(before);
            &&& e.kind == SyncEventKind::Name ==> u == u0.push(RoomUpdate::LoadDisplayName)
            &&& e.kind == SyncEventKind::Topic ==> u == u0.push(RoomUpdate::NotifyTopic)
            &&& e.kind == SyncEventKind::Avatar ==> u == u0.push(RoomUpdate::SetAvatar(i))
            &&& e.kind == SyncEventKind::PowerLevels ==> u == u0.push(RoomUpdate::UpdatePowerLevels(i))
            &&& e.kind == SyncEventKind::Tombstone ==> u == u0.push(RoomUpdate::LoadSuccessor)
            &&& e.kind is Member ==> u == u0.push(RoomUpdate::UpdateMember(i))
            &&& e.kind == SyncEventKind::Other ==> u == u0
            &&& updates_of(before.push(None)) == u0
        }),
{
    let b = before.push(Some(e));
    assert(b.drop_last() =~= before);
    assert(b.last() == Some(e));
    let c = before.push(None::<SyncEvent>);
    assert(c.drop_last() =~= before);
}

/// A batch of one name event makes the room reload its display name, and
/// nothing else; it never tells of a new topic.
pub proof fn lemma_name_event_reloads_name(e: SyncEvent)
    requires
        e.kind == SyncEventKind::Name,
    ensures
        updates_of(seq![Some(e)]) == seq![RoomUpdate::LoadDisplayName],
        !updates_of(seq![Some(e)]).contains(RoomUpdate::NotifyTopic),
{
    lemma_updates_per_event(Seq::empty(), e);
    assert(Seq::<Option<SyncEvent>>::empty().push(Some(e)) =~= seq![Some(e)]);
    assert(updates_of(Seq::<Option<SyncEvent>>::empty()) =~= Seq::<RoomUpdate>::empty());
    assert(Seq::<RoomUpdate>::empty().push(RoomUpdate::LoadDisplayName) =~= seq![RoomUpdate::LoadDisplayName]);
    assert(seq![RoomUpdate::LoadDisplayName][0] != RoomUpdate::NotifyTopic);
}

/// How a move reaches the homeserver: an invited room is joined by
/// accepting the invite, whatever joined category it goes to, and left by
/// rejecting it; a joined room is left by leaving it, and moved among the
/// joined categories by tags, where a favorite carries the favorite tag and
/// a low-priority room the low-priority tag, never both; a left room is
/// joined again for any joined category.
pub proof fn lemma_category_requests(previous: RoomType, category: RoomType)
    ensures
        (category == RoomType::Favorite || category == RoomType::Normal || category == RoomType::LowPriority) ==> {
            &&& category_ops(MembershipKind::Invited, previous, category) == seq![RoomOp::AcceptInvitation]
            &&& category_ops(MembershipKind::Left, previous, category) == seq![RoomOp::Join]
        },
        category_ops(MembershipKind::Invited, previous, RoomType::Left) == seq![RoomOp::RejectInvitation],
        category_ops(MembershipKind::Joined, previous, RoomType::Left) == seq![RoomOp::Leave],
        category_ops(MembershipKind::Joined, RoomType::Normal, RoomType::Favorite) == seq![RoomOp::SetTag(Tag::Favorite)],
        category_ops(MembershipKind::Joined, RoomType::LowPriority, RoomType::Favorite) == seq![
            RoomOp::SetTag(Tag::Favorite),
            RoomOp::RemoveTag(Tag::LowPriority),
        ],
        category_ops(MembershipKind::Joined, RoomType::Normal, RoomType::LowPriority) == seq![RoomOp::SetTag(Tag::LowPriority)],
        category_ops(MembershipKind::Joined, RoomType::Favorite, RoomType::LowPriority) == seq![
            RoomOp::SetTag(Tag::LowPriority),
            RoomOp::RemoveTag(Tag::Favorite),
        ],
        category_ops(MembershipKind::Joined, RoomType::Favorite, RoomType::Normal) == seq![RoomOp::RemoveTag(Tag::Favorite)],
        category_ops(MembershipKind::Joined, RoomType::LowPriority, RoomType::Normal) == seq![RoomOp::RemoveTag(Tag::LowPriority)],
        category_ops(MembershipKind::Left, previous, RoomType::Left).len() == 0,
{
    assert(seq![RoomOp::SetTag(Tag::Favorite)] + Seq::<RoomOp>::empty() =~= seq![RoomOp::SetTag(Tag::Favorite)]);
    assert(seq![RoomOp::SetTag(Tag::LowPriority)] + Seq::<RoomOp>::empty() =~= seq![RoomOp::SetTag(Tag::LowPriority)]);
    assert(seq![RoomOp::SetTag(Tag::Favorite)] + seq![RoomOp::RemoveTag(Tag::LowPriority)] =~= seq![
        RoomOp::SetTag(Tag::Favorite),
        RoomOp::RemoveTag(Tag::LowPriority),
    ]);
    assert(seq![RoomOp::SetTag(Tag::LowPriority)] + seq![RoomOp::RemoveTag(Tag::Favorite)] =~= seq![
        RoomOp::SetTag(Tag::LowPriority),
        RoomOp::RemoveTag(Tag::Favorite),
    ]);
}

} // verus!
