use vstd::prelude::*;

use crate::strings::{copy_opt, opt_view, same_chars};

verus! {

/// The state of a search for users to invite.
#[derive(Clone, Copy, Debug, PartialEq, Eq, Structural)]
pub enum InviteeListState {
    Initial,
    Loading,
    NoMatching,
    Matching,
    Error,
}

/// A user that can be invited: the user's id, display name and avatar.
#[derive(Debug)]
pub struct Invitee {
    pub user_id: u64,
    pub display_name: Option<String>,
    pub avatar_url: Option<String>,
}

/// The page of the invite view for each state of the search.
#[derive(Clone, Copy, Debug, PartialEq, Eq, Structural)]
pub enum InvitePage {
    NoSearch,
    Loading,
    NoMatching,
    Matching,
    Error,
}

/// The page that shows the search in state `state`.
pub fn invite_page(state: InviteeListState) -> (p: InvitePage)
    ensures
        p == match state {
            InviteeListState::Initial => InvitePage::NoSearch,
            InviteeListState::Loading => InvitePage::Loading,
            InviteeListState::NoMatching => InvitePage::NoMatching,
            InviteeListState::Matching => InvitePage::Matching,
            InviteeListState::Error => InvitePage::Error,
        },
{
    match state {
        InviteeListState::Initial => InvitePage::NoSearch,
        InviteeListState::Loading => InvitePage::Loading,
        InviteeListState::NoMatching => InvitePage::NoMatching,
        InviteeListState::Matching => InvitePage::Matching,
        InviteeListState::Error => InvitePage::Error,
    }
}

/// A user by id, display name and avatar.
pub type UserView = (u64, Option<Seq<char>>, Option<Seq<char>>);

pub open spec fn invitee_view(i: Invitee) -> UserView {
    (i.user_id, opt_view(i.display_name), opt_view(i.avatar_url))
}

pub open spec fn users_view(s: Seq<Invitee>) -> Seq<UserView> {
    Seq::new(s.len(), |i: int| invitee_view(s[i]))
}

/// The first place of the user `id` in `s`.
pub open spec fn place_of(s: Seq<UserView>, id: u64) -> Option<int>
    decreases s.len(),
{
    if s.len() == 0 {
        None
    } else {
        match place_of(s.drop_last(), id) {
            Some(i) => Some(i),
            None => if s.last().0 == id {
                Some(s.len() - 1)
            } else {
                None
            },
        }
    }
}

/// `s` without the user `id`.
pub open spec fn without(s: Seq<UserView>, id: u64) -> Seq<UserView>
    decreases s.len(),
{
    if s.len() == 0 {
        s
    } else if s.last().0 == id {
        without(s.drop_last(), id)
    } else {
        without(s.drop_last(), id).push(s.last())
    }
}

/// No user comes twice.
pub open spec fn unique_users(s: Seq<UserView>) -> bool {
    forall|i: int, j: int| 0 <= i < j < s.len() ==> s[i].0 != s[j].0
}

/// The list shown and the users to invite after one search result `r`: a
/// member of the room is not shown, and is no longer to be invited; another
/// user is shown, and when already to be invited, takes the result's name and
/// avatar.
pub open spec fn take_result(state: (Seq<UserView>, Seq<UserView>), r: UserView, members: Seq<u64>) -> (Seq<UserView>, Seq<UserView>) {
    if members.contains(r.0) {
        (state.0, without(state.1, r.0))
    } else {
        match place_of(state.1, r.0) {
            Some(i) => (state.0.push(r), state.1.update(i, r)),
            None => (state.0.push(r), state.1),
        }
    }
}

/// The list shown and the users to invite after the search results `results`.
pub open spec fn take_results(invitees: Seq<UserView>, results: Seq<UserView>, members: Seq<u64>) -> (Seq<UserView>, Seq<UserView>)
    decreases results.len(),
{
    if results.len() == 0 {
        (seq![], invitees)
    } else {
        take_result(take_results(invitees, results.drop_last(), members), results.last(), members)
    }
}

proof fn lemma_place_of(s: Seq<UserView>, id: u64)
    ensures
        place_of(s, id) matches Some(i) ==> 0 <= i < s.len() && s[i].0 == id,
        place_of(s, id) is None ==> forall|j: int| 0 <= j < s.len() ==> s[j].0 != id,
    decreases s.len(),
{
    if s.len() > 0 {
        lemma_place_of(s.drop_last(), id);
        assert forall|j: int| 0 <= j < s.len() - 1 implies s.drop_last()[j] == s[j] by {}
    }
}

proof fn lemma_without(s: Seq<UserView>, id: u64)
    requires
        unique_users(s),
    ensures
        unique_users(without(s, id)),
        forall|j: int| 0 <= j < without(s, id).len() ==> (#[trigger] without(s, id)[j]).0 != id,
        forall|u: UserView| without(s, id).contains(u) ==> s.contains(u),
        place_of(s, id) is None ==> without(s, id) == s,
    decreases s.len(),
{
    if s.len() > 0 {
        let d = s.drop_last();
        assert(unique_users(d)) by {
            assert forall|i: int, j: int| 0 <= i < j < d.len() implies d[i].0 != d[j].0 by {
                assert(d[i] == s[i] && d[j] == s[j]);
            }
        }
        lemma_without(d, id);
        lemma_place_of(s, id);
        lemma_place_of(d, id);
        let w = without(d, id);
        if s.last().0 != id {
            assert forall|u: UserView| w.push(s.last()).contains(u) implies s.contains(u) by {
                if w.contains(u) {
                    let k = choose|k: int| 0 <= k < w.len() && w[k] == u;
                    assert(d.contains(u));
                    let m = choose|m: int| 0 <= m < d.len() && d[m] == u;
                    assert(s[m] == u);
                } else {
                    assert(u == s.last());
                    assert(s[s.len() - 1] == u);
                }
            }
            assert forall|i: int, j: int| 0 <= i < j < w.push(s.last()).len() implies w.push(s.last())[i].0 != w.push(s.last())[j].0 by {
                if j == w.len() {
                    let u = w[i];
                    assert(w.contains(u));
                    assert(d.contains(u));
                    let m = choose|m: int| 0 <= m < d.len() && d[m] == u;
                    assert(s[m] == u);
                }
            }
            if place_of(s, id) is None {
                assert(place_of(d, id) is None);
                assert(w.push(s.last()) =~= s);
            }
        } else {
            assert forall|u: UserView| w.contains(u) implies s.contains(u) by {
                let m = choose|m: int| 0 <= m < d.len() && d[m] == u;
                assert(s[m] == u);
            }
        }
    }
}

fn copy_invitee(i: &Invitee) -> (r: Invitee)
    ensures
        invitee_view(r) == invitee_view(*i),
{
    Invitee { user_id: i.user_id, display_name: copy_opt(&i.display_name), avatar_url: copy_opt(&i.avatar_url) }
}

/// Whether `id` is among `members`.
fn contains_id(members: &Vec<u64>, id: u64) -> (b: bool)
    ensures
        b == members@.contains(id),
{
    let mut i: usize = 0;
    while i < members.len()
        invariant
            i <= members@.len(),
            forall|j: int| 0 <= j < i ==> members@[j] != id,
        decreases members@.len() - i,
    {
        if members[i] == id {
            assert(members@[i as int] == id);
            return true;
        }
        i = i + 1;
    }
    false
}

/// List of users matching the search term, and of the users picked to be
/// invited.
pub struct InviteeList {
    /// The users matching the search term.
    list: Vec<Invitee>,
    state: InviteeListState,
    search_term: Option<String>,
    /// The users to invite, in the order they were picked.
    invitees: Vec<Invitee>,
}

impl InviteeList {
    pub closed spec fn list_view(&self) -> Seq<UserView> {
        users_view(self.list@)
    }

    pub closed spec fn state_view(&self) -> InviteeListState {
        self.state
    }

    pub closed spec fn term_view(&self) -> Option<Seq<char>> {
        opt_view(self.search_term)
    }

    pub closed spec fn invitees_view(&self) -> Seq<UserView> {
        users_view(self.invitees@)
    }

    /// No user is picked twice, and the search term, when there is one, is
    /// not empty.
    pub closed spec fn wf(&self) -> bool {
        &&& unique_users(self.invitees_view())
        &&& self.term_view() != Some(Seq::<char>::empty())
    }

    pub fn new() -> (l: InviteeList)
        ensures
            l.wf(),
            l.list_view().len() == 0,
            l.state_view() == InviteeListState::Initial,
            l.term_view() is None,
            l.invitees_view().len() == 0,
    {
        InviteeList { list: Vec::new(), state: InviteeListState::Initial, search_term: None, invitees: Vec::new() }
    }

    pub fn state(&self) -> (s: InviteeListState)
        ensures
            s == self.state_view(),
    {
        self.state
    }

    /// The number of users matching the search term.
    pub fn n_items(&self) -> (n: usize)
        ensures
            n == self.list_view().len(),
    {
        self.list.len()
    }

    /// The user at `position` among those matching the search term.
    pub fn item(&self, position: usize) -> (u: Option<&Invitee>)
        ensures
            position < self.list_view().len() ==> (u matches Some(x) && invitee_view(*x) == self.list_view()[position as int]),
            position >= self.list_view().len() ==> u is None,
    {
        if position < self.list.len() {
            Some(&self.list[position])
        } else {
            None
        }
    }

    /// Sets the search term, an empty one meaning none, and starts a search
    /// when it changed. Returns the term to search for, if a search starts.
    pub fn set_search_term(&mut self, search_term: Option<String>) -> (request: Option<String>)
        requires
            old(self).wf(),
        ensures
            final(self).wf(),
            final(self).term_view() != Some(Seq::<char>::empty()),
            final(self).invitees_view() == old(self).invitees_view(),
            opt_view(search_term) == old(self).term_view() ==> request is None
                && final(self).term_view() == old(self).term_view()
                && final(self).state_view() == old(self).state_view()
                && final(self).list_view() == old(self).list_view(),
            opt_view(search_term) != old(self).term_view() ==> final(self).term_view() == match opt_view(search_term) {
                Some(t) if t.len() == 0 => None,
                other => other,
            } && match final(self).term_view() {
                Some(t) => (request matches Some(r) && r@ == t) && final(self).state_view() == InviteeListState::Loading
                    && final(self).list_view().len() == 0,
                None => request is None && final(self).state_view() == if old(self).state_view() == InviteeListState::Loading {
                    InviteeListState::Initial
                } else {
                    old(self).state_view()
                } && final(self).list_view() == old(self).list_view(),
            },
    {
        let same = match (&search_term, &self.search_term) {
            (Some(a), Some(b)) => *a == *b,
            (None, None) => true,
            _ => false,
        };
        if same {
            return None;
        }
        let empty = match &search_term {
            Some(s) => s.as_str().is_empty(),
            None => false,
        };
        if empty {
            self.search_term = None;
        } else {
            self.search_term = search_term;
        }
        self.search_users()
    }

    /// Starts a search for the search term: the list is emptied while it
    /// loads. Without a term, a search that was loading is given up. Returns
    /// the term to search for.
    fn search_users(&mut self) -> (request: Option<String>)
        requires
            old(self).wf(),
        ensures
            final(self).wf(),
            final(self).invitees_view() == old(self).invitees_view(),
            final(self).term_view() == old(self).term_view(),
            match old(self).term_view() {
                Some(t) => (request matches Some(r) && r@ == t) && final(self).state_view() == InviteeListState::Loading
                    && final(self).list_view().len() == 0,
                None => request is None && final(self).state_view() == if old(self).state_view() == InviteeListState::Loading {
                    InviteeListState::Initial
                } else {
                    old(self).state_view()
                } && final(self).list_view() == old(self).list_view(),
            },
    {
        match &self.search_term {
            Some(term) => {
                let t = term.clone();
                self.state = InviteeListState::Loading;
                self.list = Vec::new();
                assert(self.list_view() =~= Seq::<UserView>::empty());
                Some(t)
            },
            None => {
                if self.state == InviteeListState::Loading {
                    self.state = InviteeListState::Initial;
                }
                None
            },
        }
    }

    /// Takes the results of the search for `search_term`, or `None` where it
    /// failed; `members` are the members of the room. Results of a search for
    /// another term than the current one are dropped.
    pub fn finish_search(&mut self, search_term: &str, response: Option<Vec<Invitee>>, members: &Vec<u64>)
        requires
            old(self).wf(),
        ensures
            final(self).wf(),
            final(self).term_view() == old(self).term_view(),
            old(self).term_view() != Some(search_term@) ==> final(self).state_view() == old(self).state_view()
                && final(self).list_view() == old(self).list_view()
                && final(self).invitees_view() == old(self).invitees_view(),
            old(self).term_view() == Some(search_term@) ==> match response {
                None => final(self).state_view() == InviteeListState::Error && final(self).list_view().len() == 0
                    && final(self).invitees_view() == old(self).invitees_view(),
                Some(results) => if results@.len() == 0 {
                    final(self).state_view() == InviteeListState::NoMatching && final(self).list_view().len() == 0
                        && final(self).invitees_view() == old(self).invitees_view()
                } else {
                    final(self).state_view() == InviteeListState::Matching
                        && (final(self).list_view(), final(self).invitees_view())
                            == take_results(old(self).invitees_view(), users_view(results@), members@)
                },
            },
    {
        let current = match &self.search_term {
            Some(t) => same_chars(t.as_str(), search_term),
            None => false,
        };
        if !current {
            return;
        }
        match response {
            None => {
                self.state = InviteeListState::Error;
                self.list = Vec::new();
                assert(self.list_view() =~= Seq::<UserView>::empty());
            },
            Some(results) => {
                if results.len() == 0 {
                    self.state = InviteeListState::NoMatching;
                    self.list = Vec::new();
                    assert(self.list_view() =~= Seq::<UserView>::empty());
                } else {
                    let ghost rv = users_view(results@);
                    let ghost inv0 = self.invitees_view();
                    let mut shown: Vec<Invitee> = Vec::new();
                    let mut i: usize = 0;
                    while i < results.len()
                        invariant
                            i <= results@.len(),
                            rv == users_view(results@),
                            unique_users(self.invitees_view()),
                            self.term_view() == old(self).term_view(),
                            self.term_view() != Some(Seq::<char>::empty()),
                            self.state_view() == old(self).state_view(),
                            (users_view(shown@), self.invitees_view()) == take_results(inv0, rv.take(i as int), members@),
                        decreases results@.len() - i,
                    {
                        assert(rv.take(i + 1).drop_last() =~= rv.take(i as int));
                        assert(rv.take(i + 1).last() == invitee_view(results@[i as int]));
                        let r = &results[i];
                        let ghost before = self.invitees_view();
                        let ghost shown_before = users_view(shown@);
                        if contains_id(members, r.user_id) {
                            self.remove_invitee(r.user_id);
                        } else {
                            proof {
                                lemma_place_of(before, r.user_id);
                            }
                            match self.invitee_place(r.user_id) {
                                Some(k) => {
                                    assert(before[k as int].0 == r.user_id);
                                    let updated = copy_invitee(r);
                                    self.invitees.set(k, updated);
                                    proof {
                                        assert(self.invitees_view() =~= before.update(k as int, invitee_view(*r)));
                                        assert forall|a: int, b: int| 0 <= a < b < self.invitees_view().len() implies
                                            self.invitees_view()[a].0 != self.invitees_view()[b].0 by {
                                            assert(self.invitees_view()[a].0 == before[a].0);
                                            assert(self.invitees_view()[b].0 == before[b].0);
                                        }
                                    }
                                },
                                None => {},
                            }
                            shown.push(copy_invitee(r));
                            assert(users_view(shown@) =~= shown_before.push(invitee_view(*r)));
                        }
                        i = i + 1;
                    }
                    assert(rv.take(results@.len() as int) =~= rv);
                    self.list = shown;
                    self.state = InviteeListState::Matching;
                }
            },
        }
    }

    /// The place of the user `user_id` among the users to invite.
    fn invitee_place(&self, user_id: u64) -> (r: Option<usize>)
        ensures
            match place_of(self.invitees_view(), user_id) {
                Some(i) => r matches Some(k) && k as int == i,
                None => r is None,
            },
    {
        let ghost v = self.invitees_view();
        let mut i: usize = 0;
        while i < self.invitees.len()
            invariant
                i <= v.len(),
                v == self.invitees_view(),
                place_of(v.take(i as int), user_id) is None,
            decreases v.len() - i,
        {
            assert(v.take(i + 1).drop_last() =~= v.take(i as int));
            if self.invitees[i].user_id == user_id {
                proof {
                    lemma_place_prefix(v, i as int + 1, user_id);
                }
                return Some(i);
            }
            i = i + 1;
        }
        assert(v.take(v.len() as int) =~= v);
        None
    }

    /// Whether the user `user_id` is to be invited.
    pub fn is_invited(&self, user_id: u64) -> (b: bool)
        ensures
            b == (place_of(self.invitees_view(), user_id) is Some),
    {
        self.invitee_place(user_id).is_some()
    }

    /// Picks `user` to be invited, in place of a user with the same id.
    pub fn add_invitee(&mut self, user: Invitee)
        requires
            old(self).wf(),
        ensures
            final(self).wf(),
            final(self).invitees_view() == without(old(self).invitees_view(), user.user_id).push(invitee_view(user)),
            final(self).list_view() == old(self).list_view(),
            final(self).state_view() == old(self).state_view(),
            final(self).term_view() == old(self).term_view(),
    {
        let id = user.user_id;
        let ghost v0 = self.invitees_view();
        proof {
            lemma_without(v0, id);
        }
        self.remove_invitee(id);
        let ghost before = self.invitees_view();
        let ghost uv = invitee_view(user);
        self.invitees.push(user);
        proof {
            assert(self.invitees_view() =~= before.push(uv));
            assert forall|a: int, b: int| 0 <= a < b < self.invitees_view().len() implies
                self.invitees_view()[a].0 != self.invitees_view()[b].0 by {
                if b == before.len() {
                    assert(self.invitees_view()[a] == before[a]);
                } else {
                    assert(self.invitees_view()[a] == before[a]);
                    assert(self.invitees_view()[b] == before[b]);
                }
            }
        }
    }

    /// Takes the user `user_id` off the users to invite; returns whether it
    /// was among them.
    pub fn remove_invitee(&mut self, user_id: u64) -> (removed: bool)
        requires
            old(self).wf(),
        ensures
            final(self).wf(),
            removed == (place_of(old(self).invitees_view(), user_id) is Some),
            final(self).invitees_view() == without(old(self).invitees_view(), user_id),
            final(self).list_view() == old(self).list_view(),
            final(self).state_view() == old(self).state_view(),
            final(self).term_view() == old(self).term_view(),
    {
        let ghost v = self.invitees_view();
        proof {
            lemma_without(v, user_id);
            lemma_place_of(v, user_id);
        }
        let mut kept: Vec<Invitee> = Vec::new();
        let mut found = false;
        let mut i: usize = 0;
        while i < self.invitees.len()
            invariant
                i <= v.len(),
                v == self.invitees_view(),
                users_view(kept@) == without(v.take(i as int), user_id),
                found == (place_of(v.take(i as int), user_id) is Some),
            decreases v.len() - i,
        {
            assert(v.take(i + 1).drop_last() =~= v.take(i as int));
            let ghost k0 = users_view(kept@);
            if self.invitees[i].user_id == user_id {
                found = true;
            } else {
                kept.push(copy_invitee(&self.invitees[i]));
                assert(users_view(kept@) =~= k0.push(v[i as int]));
            }
            i = i + 1;
        }
        assert(v.take(v.len() as int) =~= v);
        self.invitees = kept;
        found
    }

    /// The users to invite.
    pub fn invitees(&self) -> (users: Vec<Invitee>)
        ensures
            users_view(users@) == self.invitees_view(),
    {
        let mut out: Vec<Invitee> = Vec::new();
        let mut i: usize = 0;
        while i < self.invitees.len()
            invariant
                i <= self.invitees@.len(),
                users_view(out@) == self.invitees_view().take(i as int),
            decreases self.invitees@.len() - i,
        {
            let ghost prev = users_view(out@);
            let c = copy_invitee(&self.invitees[i]);
            assert(invitee_view(c) == self.invitees_view()[i as int]);
            out.push(c);
            assert(users_view(out@) =~= prev.push(invitee_view(c)));
            i = i + 1;
            assert(users_view(out@) =~= self.invitees_view().take(i as int));
        }
        assert(self.invitees_view().take(self.invitees@.len() as int) =~= self.invitees_view());
        out
    }

    /// Activates the user at `position` in the list: a user picked to be
    /// invited is taken off, another is picked. Returns whether the user is
    /// now to be invited.
    pub fn toggle_invited(&mut self, position: usize) -> (invited: bool)
        requires
            old(self).wf(),
            position < old(self).list_view().len(),
        ensures
            final(self).wf(),
            final(self).list_view() == old(self).list_view(),
            final(self).state_view() == old(self).state_view(),
            final(self).term_view() == old(self).term_view(),
            ({
                let u = old(self).list_view()[position as int];
                if place_of(old(self).invitees_view(), u.0) is Some {
                    !invited && final(self).invitees_view() == without(old(self).invitees_view(), u.0)
                } else {
                    invited && final(self).invitees_view() == without(old(self).invitees_view(), u.0).push(u)
                }
            }),
    {
        let user = copy_invitee(&self.list[position]);
        if self.is_invited(user.user_id) {
            self.remove_invitee(user.user_id);
            false
        } else {
            self.add_invitee(user);
            true
        }
    }

    /// Whether some user was picked to be invited.
    pub fn has_selected(&self) -> (b: bool)
        ensures
            b == (self.invitees_view().len() > 0),
    {
        self.invitees.len() > 0
    }
}

proof fn lemma_place_prefix(s: Seq<UserView>, n: int, id: u64)
    requires
        0 < n <= s.len(),
        s[n - 1].0 == id,
        place_of(s.take(n - 1), id) is None,
    ensures
        place_of(s, id) == Some(n - 1),
    decreases s.len(),
{
    if n < s.len() {
        assert(s.drop_last().take(n - 1) =~= s.take(n - 1));
        lemma_place_prefix(s.drop_last(), n, id);
    } else {
        assert(s.take(n - 1) =~= s.drop_last());
    }
}

/// Picking a user and then taking them off leaves the users to invite as
/// they were without that user; a user just picked is among them.
pub proof fn lemma_add_then_remove(s: Seq<UserView>, u: UserView)
    requires
        unique_users(s),
    ensures
        without(without(s, u.0).push(u), u.0) == without(s, u.0),
        place_of(without(s, u.0).push(u), u.0) is Some,
{
    let w = without(s, u.0);
    lemma_without(s, u.0);
    assert(w.push(u).drop_last() =~= w);
    lemma_without(w, u.0);
    lemma_place_of(w, u.0);
}

} // verus!
