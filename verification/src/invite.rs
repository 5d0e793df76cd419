use vstd::prelude::*;

use std::collections::HashSet;

use crate::room_type::RoomType;

verus! {

broadcast use vstd::std_specs::hash::group_hash_axioms;

/// What the buttons of the invite page show: whether the accept button and
/// the reject button spin, and whether both can be pressed.
#[derive(Clone, Copy, Debug, PartialEq, Eq, Structural)]
pub struct InviteButtons {
    pub accept_loading: bool,
    pub reject_loading: bool,
    pub enabled: bool,
}

/// The buttons at rest.
pub open spec fn idle_buttons() -> InviteButtons {
    InviteButtons { accept_loading: false, reject_loading: false, enabled: true }
}

/// The page that shows an invite to a room, with the rooms whose invite is
/// being accepted or rejected.
pub struct Invite {
    /// The room shown, by its id.
    room: Option<u64>,
    accept_requests: HashSet<u64>,
    reject_requests: HashSet<u64>,
    buttons: InviteButtons,
}

impl Invite {
    pub closed spec fn room_view(&self) -> Option<u64> {
        self.room
    }

    /// The rooms whose invite is being accepted.
    pub closed spec fn accepting(&self) -> Set<u64> {
        self.accept_requests@
    }

    /// The rooms whose invite is being rejected.
    pub closed spec fn rejecting(&self) -> Set<u64> {
        self.reject_requests@
    }

    pub closed spec fn buttons_view(&self) -> InviteButtons {
        self.buttons
    }

    pub fn new() -> (i: Invite)
        ensures
            i.room_view() is None,
            i.accepting() == Set::<u64>::empty(),
            i.rejecting() == Set::<u64>::empty(),
            i.buttons_view() == idle_buttons(),
    {
        Invite {
            room: None,
            accept_requests: HashSet::new(),
            reject_requests: HashSet::new(),
            buttons: InviteButtons { accept_loading: false, reject_loading: false, enabled: true },
        }
    }

    pub fn room(&self) -> (r: Option<u64>)
        ensures
            r == self.room_view(),
    {
        self.room
    }

    pub fn buttons(&self) -> (b: InviteButtons)
        ensures
            b == self.buttons_view(),
    {
        self.buttons
    }

    /// Shows the invite to `room`; a room whose invite is being accepted or
    /// rejected shows that button spinning.
    pub fn set_room(&mut self, room: Option<u64>)
        ensures
            final(self).room_view() == room,
            final(self).accepting() == old(self).accepting(),
            final(self).rejecting() == old(self).rejecting(),
            final(self).buttons_view() == if old(self).room_view() == room {
                old(self).buttons_view()
            } else {
                match room {
                    Some(r) if old(self).accepting().contains(r) =>
                        InviteButtons { accept_loading: true, reject_loading: old(self).buttons_view().reject_loading, enabled: false },
                    Some(r) if old(self).rejecting().contains(r) =>
                        InviteButtons { accept_loading: old(self).buttons_view().accept_loading, reject_loading: true, enabled: false },
                    _ => idle_buttons(),
                }
            },
    {
        if self.room == room {
            return;
        }
        match room {
            Some(r) => {
                if self.accept_requests.contains(&r) {
                    self.buttons.enabled = false;
                    self.buttons.accept_loading = true;
                } else if self.reject_requests.contains(&r) {
                    self.buttons.enabled = false;
                    self.buttons.reject_loading = true;
                } else {
                    self.reset();
                }
            },
            None => self.reset(),
        }
        self.room = room;
    }

    fn reset(&mut self)
        ensures
            final(self).buttons_view() == idle_buttons(),
            final(self).room_view() == old(self).room_view(),
            final(self).accepting() == old(self).accepting(),
            final(self).rejecting() == old(self).rejecting(),
    {
        self.buttons = InviteButtons { accept_loading: false, reject_loading: false, enabled: true };
    }

    /// Accepts the invite shown; returns the room whose invite is to be
    /// accepted, if a room is shown.
    pub fn accept(&mut self) -> (r: Option<u64>)
        ensures
            r == old(self).room_view(),
            final(self).room_view() == old(self).room_view(),
            final(self).rejecting() == old(self).rejecting(),
            match r {
                Some(room) => final(self).accepting() == old(self).accepting().insert(room)
                    && final(self).buttons_view() == InviteButtons {
                        accept_loading: true,
                        reject_loading: old(self).buttons_view().reject_loading,
                        enabled: false,
                    },
                None => final(self).accepting() == old(self).accepting() && final(self).buttons_view() == old(self).buttons_view(),
            },
    {
        let room = match self.room {
            Some(r) => r,
            None => {
                return None;
            },
        };
        self.buttons.enabled = false;
        self.buttons.accept_loading = true;
        self.accept_requests.insert(room);
        Some(room)
    }

    /// Rejects the invite shown; returns the room whose invite is to be
    /// rejected, if a room is shown.
    pub fn reject(&mut self) -> (r: Option<u64>)
        ensures
            r == old(self).room_view(),
            final(self).room_view() == old(self).room_view(),
            final(self).accepting() == old(self).accepting(),
            match r {
                Some(room) => final(self).rejecting() == old(self).rejecting().insert(room)
                    && final(self).buttons_view() == InviteButtons {
                        accept_loading: old(self).buttons_view().accept_loading,
                        reject_loading: true,
                        enabled: false,
                    },
                None => final(self).rejecting() == old(self).rejecting() && final(self).buttons_view() == old(self).buttons_view(),
            },
    {
        let room = match self.room {
            Some(r) => r,
            None => {
                return None;
            },
        };
        self.buttons.enabled = false;
        self.buttons.reject_loading = true;
        self.reject_requests.insert(room);
        Some(room)
    }

    /// Accepting the invite to `room` failed: it can be tried again.
    pub fn accept_failed(&mut self, room: u64)
        ensures
            final(self).accepting() == old(self).accepting().remove(room),
            final(self).rejecting() == old(self).rejecting(),
            final(self).room_view() == old(self).room_view(),
            final(self).buttons_view() == idle_buttons(),
    {
        self.accept_requests.remove(&room);
        self.reset();
    }

    /// Rejecting the invite to `room` failed: it can be tried again.
    pub fn reject_failed(&mut self, room: u64)
        ensures
            final(self).rejecting() == old(self).rejecting().remove(room),
            final(self).accepting() == old(self).accepting(),
            final(self).room_view() == old(self).room_view(),
            final(self).buttons_view() == idle_buttons(),
    {
        self.reject_requests.remove(&room);
        self.reset();
    }

    /// The category of the room shown changed to `category`: once it is no
    /// longer an invite, nothing is pending for it.
    pub fn category_changed(&mut self, room: u64, category: RoomType)
        ensures
            final(self).room_view() == old(self).room_view(),
            category != RoomType::Invited ==> final(self).accepting() == old(self).accepting().remove(room)
                && final(self).rejecting() == old(self).rejecting().remove(room)
                && final(self).buttons_view() == idle_buttons(),
            category == RoomType::Invited ==> final(self).accepting() == old(self).accepting()
                && final(self).rejecting() == old(self).rejecting()
                && final(self).buttons_view() == old(self).buttons_view(),
    {
        if category != RoomType::Invited {
            self.reject_requests.remove(&room);
            self.accept_requests.remove(&room);
            self.reset();
        }
    }
}

} // verus!
