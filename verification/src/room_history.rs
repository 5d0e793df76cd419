use vstd::prelude::*;

use crate::room_type::RoomType;

verus! {

/// The page the room history shows.
#[derive(Clone, Copy, Debug, PartialEq, Eq, Structural)]
pub enum HistoryPage {
    /// A spinner, while the timeline is empty.
    Loading,
    /// The events.
    Content,
}

/// The room a history shows: its id, its category and whether its timeline
/// is empty.
#[derive(Clone, Copy, Debug, PartialEq, Eq, Structural)]
pub struct HistoryRoom {
    pub id: u64,
    pub category: RoomType,
    pub timeline_empty: bool,
}

/// The view of a room history: the room shown, whether it can be left and
/// has its menu, the page, whether it sticks to the newest message, whether
/// the button that scrolls down shows, whether it scrolls down by itself, and
/// whether a message can be sent.
#[derive(Clone, Copy, Debug, PartialEq, Eq, Structural)]
pub struct HistoryView {
    pub room: Option<u64>,
    pub leave_enabled: bool,
    pub menu_visible: bool,
    pub page: HistoryPage,
    pub sticky: bool,
    pub scroll_button: bool,
    pub auto_scrolling: bool,
    pub send_enabled: bool,
}

/// The history of a room: the list of its events and the entry to write.
pub struct RoomHistory {
    view: HistoryView,
}

impl RoomHistory {
    pub closed spec fn view_of(&self) -> HistoryView {
        self.view
    }

    /// The button that scrolls down shows exactly when the history does not
    /// stick to the newest message.
    #[verifier::type_invariant]
    spec fn inv(&self) -> bool {
        self.view.scroll_button == !self.view.sticky
    }

    /// A history without a room, sticking to the newest message.
    pub fn new() -> (h: RoomHistory)
        ensures
            h.view_of() == (HistoryView {
                room: None,
                leave_enabled: true,
                menu_visible: true,
                page: HistoryPage::Loading,
                sticky: true,
                scroll_button: false,
                auto_scrolling: false,
                send_enabled: false,
            }),
    {
        RoomHistory {
            view: HistoryView {
                room: None,
                leave_enabled: true,
                menu_visible: true,
                page: HistoryPage::Loading,
                sticky: true,
                scroll_button: false,
                auto_scrolling: false,
                send_enabled: false,
            },
        }
    }

    pub fn view(&self) -> (v: HistoryView)
        ensures
            v == self.view_of(),
    {
        self.view
    }

    /// Shows `room`; returns whether it changed, and then the room's members
    /// are to be loaded.
    pub fn set_room(&mut self, room: Option<HistoryRoom>) -> (changed: bool)
        ensures
            changed == (old(self).view_of().room != match room {
                Some(r) => Some(r.id),
                None => None::<u64>,
            }),
            !changed ==> final(self).view_of() == old(self).view_of(),
            changed ==> final(self).view_of() == match room {
                Some(r) => HistoryView {
                    room: Some(r.id),
                    leave_enabled: r.category != RoomType::Left,
                    menu_visible: r.category != RoomType::Left,
                    page: if r.timeline_empty { HistoryPage::Loading } else { HistoryPage::Content },
                    ..old(self).view_of()
                },
                None => HistoryView { room: None, ..old(self).view_of() },
            },
    {
        proof {
            use_type_invariant(&*self);
        }
        let id = match room {
            Some(r) => Some(r.id),
            None => None,
        };
        if self.view.room == id {
            return false;
        }
        self.view.room = id;
        if let Some(r) = room {
            self.update_room_state(r.category);
            self.set_empty_timeline(r.timeline_empty);
        }
        true
    }

    /// The category of the room shown changed: a left room can no longer be
    /// left and hides its menu.
    pub fn update_room_state(&mut self, category: RoomType)
        ensures
            final(self).view_of() == (HistoryView {
                leave_enabled: category != RoomType::Left,
                menu_visible: category != RoomType::Left,
                ..old(self).view_of()
            }),
    {
        proof {
            use_type_invariant(&*self);
        }
        let usable = category != RoomType::Left;
        self.view.leave_enabled = usable;
        self.view.menu_visible = usable;
    }

    /// The timeline of the room shown became empty or not.
    pub fn set_empty_timeline(&mut self, empty: bool)
        ensures
            final(self).view_of() == (HistoryView {
                page: if empty { HistoryPage::Loading } else { HistoryPage::Content },
                ..old(self).view_of()
            }),
    {
        proof {
            use_type_invariant(&*self);
        }
        self.view.page = if empty {
            HistoryPage::Loading
        } else {
            HistoryPage::Content
        };
    }

    /// Whether the history sticks to the newest message: the button that
    /// scrolls down shows when it does not.
    pub fn set_sticky(&mut self, sticky: bool)
        ensures
            final(self).view_of() == (HistoryView { sticky, scroll_button: !sticky, ..old(self).view_of() }),
    {
        proof {
            use_type_invariant(&*self);
        }
        if self.view.sticky == sticky {
            return;
        }
        self.view = HistoryView { sticky, scroll_button: !sticky, ..self.view };
    }

    /// Scroll to the newest message in the timeline.
    pub fn scroll_down(&mut self)
        ensures
            final(self).view_of() == (HistoryView { auto_scrolling: true, ..old(self).view_of() }),
    {
        proof {
            use_type_invariant(&*self);
        }
        self.view.auto_scrolling = true;
    }

    /// The list was scrolled; `at_bottom` tells whether it now shows the
    /// newest message. While scrolling by itself, the history sticks again
    /// once at the bottom; otherwise it sticks exactly when at the bottom.
    pub fn value_changed(&mut self, at_bottom: bool)
        ensures
            old(self).view_of().auto_scrolling ==> final(self).view_of() == if at_bottom {
                HistoryView { auto_scrolling: false, sticky: true, scroll_button: false, ..old(self).view_of() }
            } else {
                old(self).view_of()
            },
            !old(self).view_of().auto_scrolling ==> final(self).view_of() == (HistoryView {
                sticky: at_bottom,
                scroll_button: !at_bottom,
                ..old(self).view_of()
            }),
    {
        proof {
            use_type_invariant(&*self);
        }
        if self.view.auto_scrolling {
            if at_bottom {
                self.view.auto_scrolling = false;
                self.set_sticky(true);
            }
        } else {
            self.set_sticky(at_bottom);
        }
    }

    /// The list grew; returns whether it scrolls down, which it does when it
    /// sticks to the newest message.
    pub fn upper_changed(&mut self) -> (scrolls: bool)
        ensures
            scrolls == old(self).view_of().sticky,
            final(self).view_of() == if scrolls {
                HistoryView { auto_scrolling: true, ..old(self).view_of() }
            } else {
                old(self).view_of()
            },
    {
        proof {
            use_type_invariant(&*self);
        }
        if self.view.sticky {
            self.scroll_down();
            true
        } else {
            false
        }
    }

    /// The text of the entry changed: a message can be sent when there is
    /// some.
    pub fn text_changed(&mut self, has_text: bool)
        ensures
            final(self).view_of() == (HistoryView { send_enabled: has_text, ..old(self).view_of() }),
    {
        proof {
            use_type_invariant(&*self);
        }
        self.view.send_enabled = has_text;
    }

    /// Whether a key sends the message: Enter, or Enter of the keypad,
    /// without Shift.
    pub fn sends_on_key(&self, is_enter: bool, shift: bool) -> (sends: bool)
        ensures
            sends == (is_enter && !shift),
    {
        is_enter && !shift
    }

    /// Whether older messages are to be loaded: when the user nears the top
    /// of the known history (`near_top`, by the scroll position), or when the
    /// timeline is empty.
    pub fn load_more_messages(&self, near_top: bool, timeline_empty: bool) -> (load: bool)
        ensures
            load == (self.view_of().room is Some && (near_top || timeline_empty)),
    {
        self.view.room.is_some() && (near_top || timeline_empty)
    }
}

} // verus!
