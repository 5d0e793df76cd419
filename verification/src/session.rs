use vstd::prelude::*;

use crate::content_type::ContentType;
use crate::strings::opt_view;

verus! {

/// Which way the leaflet of the session moves.
#[derive(Clone, Copy, Debug, PartialEq, Eq, Structural)]
pub enum NavigationDirection {
    Back,
    Forward,
}

/// Whether `c` is an ASCII letter or digit.
pub open spec fn is_ascii_alphanumeric(c: char) -> bool {
    ('a' <= c && c <= 'z') || ('A' <= c && c <= 'Z') || ('0' <= c && c <= '9')
}

/// `rand::distr::Alphanumeric` sampled once with the thread's generator: a
/// random ASCII letter or digit, as a string of one character.
#[verifier::external_body]
fn random_alphanumeric() -> (s: String)
    ensures
        s@.len() == 1,
        is_ascii_alphanumeric(s@[0]),
{
    let mut rng = rand::rng();
    let c = rand::RngExt::sample(&mut rng, rand::distr::Alphanumeric) as char;
    c.to_string()
}

/// The length of the passphrase of a session's store.
pub const PASSPHRASE_LEN: usize = 30;

/// A new passphrase for a session's store: 30 random ASCII letters and
/// digits.
pub fn new_passphrase() -> (p: String)
    ensures
        p@.len() == PASSPHRASE_LEN,
        forall|i: int| 0 <= i < p@.len() ==> is_ascii_alphanumeric(#[trigger] p@[i]),
{
    let mut p = String::new();
    let mut i: usize = 0;
    while i < PASSPHRASE_LEN
        invariant
            i <= PASSPHRASE_LEN,
            p@.len() == i,
            forall|k: int| 0 <= k < p@.len() ==> is_ascii_alphanumeric(#[trigger] p@[k]),
        decreases PASSPHRASE_LEN - i,
    {
        let c = random_alphanumeric();
        let ghost before = p@;
        p.append(c.as_str());
        assert forall|k: int| 0 <= k < p@.len() implies is_ascii_alphanumeric(#[trigger] p@[k]) by {
            if k < before.len() {
                assert(p@[k] == before[k]);
            } else {
                assert(p@[k] == c@[0]);
            }
        }
        i = i + 1;
    }
    p
}

/// What follows a login that went through.
#[derive(Clone, Copy, Debug, PartialEq, Eq, Structural)]
pub struct LoginSteps {
    /// Whether the session is to be stored, for the next start.
    pub store_session: bool,
    /// Whether the rooms are to be loaded and the sync started.
    pub start_sync: bool,
}

/// What follows a login with a password: whether the store made for it is
/// to be removed, as it is where the login failed, and what follows a login
/// that went through.
#[derive(Clone, Copy, Debug, PartialEq, Eq, Structural)]
pub struct PasswordLogin {
    pub remove_store: bool,
    pub steps: Option<LoginSteps>,
}

/// A session: what its content pane shows, whether its first sync came, and
/// whether logging in failed.
pub struct Session {
    selected_content_type: ContentType,
    /// The selected room, by its id.
    selected_room: Option<u64>,
    /// Whether the first sync came: then the content shows.
    ready: bool,
    /// The error of a failed login, by its message, until it is taken.
    error: Option<String>,
}

impl Session {
    pub closed spec fn content_type_view(&self) -> ContentType {
        self.selected_content_type
    }

    pub closed spec fn room_view(&self) -> Option<u64> {
        self.selected_room
    }

    pub closed spec fn ready_view(&self) -> bool {
        self.ready
    }

    pub closed spec fn error_view(&self) -> Option<Seq<char>> {
        opt_view(self.error)
    }

    pub fn new() -> (s: Session)
        ensures
            s.content_type_view() == ContentType::NoSelection,
            s.room_view() is None,
            !s.ready_view(),
            s.error_view() is None,
    {
        Session { selected_content_type: ContentType::default_type(), selected_room: None, ready: false, error: None }
    }

    pub fn selected_content_type(&self) -> (t: ContentType)
        ensures
            t == self.content_type_view(),
    {
        self.selected_content_type
    }

    /// Selects what the content pane shows. Returns which way the pane moves:
    /// back when nothing is selected, forward otherwise, and nowhere when the
    /// selection is the same.
    pub fn set_selected_content_type(&mut self, selected_type: ContentType) -> (d: Option<NavigationDirection>)
        ensures
            final(self).content_type_view() == selected_type,
            final(self).room_view() == old(self).room_view(),
            d == if old(self).content_type_view() == selected_type {
                None
            } else if selected_type == ContentType::NoSelection {
                Some(NavigationDirection::Back)
            } else {
                Some(NavigationDirection::Forward)
            },
    {
        if self.selected_content_type == selected_type {
            return None;
        }
        let d = if selected_type == ContentType::NoSelection {
            NavigationDirection::Back
        } else {
            NavigationDirection::Forward
        };
        self.selected_content_type = selected_type;
        Some(d)
    }

    pub fn selected_room(&self) -> (r: Option<u64>)
        ensures
            r == self.room_view(),
    {
        self.selected_room
    }

    /// Selects a room; returns whether the selection changed.
    pub fn set_selected_room(&mut self, selected_room: Option<u64>) -> (changed: bool)
        ensures
            final(self).room_view() == selected_room,
            final(self).content_type_view() == old(self).content_type_view(),
            changed == (old(self).room_view() != selected_room),
    {
        if self.selected_room == selected_room {
            return false;
        }
        self.selected_room = selected_room;
        true
    }

    /// Takes the result of logging in, `Err` with the error's message where
    /// it failed: a login that went through is stored when `store_session`
    /// asks it and starts the sync; one that failed keeps its error. Either
    /// way the session is then prepared, once.
    pub fn handle_login_result(&mut self, result: Result<(), String>, store_session: bool) -> (steps: Option<LoginSteps>)
        ensures
            match result {
                Ok(()) => steps == Some(LoginSteps { store_session, start_sync: true })
                    && final(self).error_view() == old(self).error_view(),
                Err(m) => steps is None && final(self).error_view() == Some(m@),
            },
            final(self).ready_view() == old(self).ready_view(),
            final(self).content_type_view() == old(self).content_type_view(),
            final(self).room_view() == old(self).room_view(),
    {
        match result {
            Ok(()) => Some(LoginSteps { store_session, start_sync: true }),
            Err(m) => {
                self.error = Some(m);
                None
            },
        }
    }

    /// Takes the result of logging in with a password, `Err` with the
    /// error's message where it failed: a failed login removes the store
    /// that was made for it; then the result is handled as
    /// `handle_login_result` does, with the session to be stored.
    pub fn handle_password_login(&mut self, result: Result<(), String>) -> (o: PasswordLogin)
        ensures
            o.remove_store == (result is Err),
            match result {
                Ok(()) => o.steps == Some(LoginSteps { store_session: true, start_sync: true })
                    && final(self).error_view() == old(self).error_view(),
                Err(m) => o.steps is None && final(self).error_view() == Some(m@),
            },
            final(self).ready_view() == old(self).ready_view(),
            final(self).content_type_view() == old(self).content_type_view(),
            final(self).room_view() == old(self).room_view(),
    {
        let remove_store = result.is_err();
        let steps = self.handle_login_result(result, true);
        PasswordLogin { remove_store, steps }
    }

    /// Returns and takes the error of a failed login, by its message.
    pub fn get_error(&mut self) -> (e: Option<String>)
        ensures
            opt_view(e) == old(self).error_view(),
            final(self).error_view() is None,
            final(self).ready_view() == old(self).ready_view(),
            final(self).content_type_view() == old(self).content_type_view(),
    {
        self.error.take()
    }

    /// A sync response came; the first one makes the session ready. Returns
    /// whether it did now.
    pub fn handle_sync_response(&mut self) -> (became_ready: bool)
        ensures
            became_ready == !old(self).ready_view(),
            final(self).ready_view(),
            final(self).error_view() == old(self).error_view(),
            final(self).content_type_view() == old(self).content_type_view(),
    {
        if self.ready {
            false
        } else {
            self.ready = true;
            true
        }
    }
}

} // verus!
