use vstd::prelude::*;

use indexmap::IndexMap;

use crate::event::{EventData, MatrixEvent, MessageEvent};

verus! {

#[verifier::external_type_specification]
#[verifier::external_body]
#[verifier::reject_recursive_types(K)]
#[verifier::reject_recursive_types(V)]
#[verifier::reject_recursive_types(S)]
pub struct ExIndexMap<K, V, S>(IndexMap<K, V, S>);

/// The entries of a group's map of reactions, in their order: the reaction's
/// event id, with its sender and whether it was redacted.
pub uninterp spec fn reaction_entries(m: IndexMap<u64, (u64, bool)>) -> Seq<(u64, (u64, bool))>;

/// The entries of a list's map of groups, in their order: the key and the
/// group.
pub uninterp spec fn group_entries(m: IndexMap<String, ReactionGroup>) -> Seq<(String, ReactionGroup)>;

/// The first place of `k` among the keys of `entries`.
pub open spec fn index_of_id(entries: Seq<(u64, (u64, bool))>, k: u64) -> Option<int>
    decreases entries.len(),
{
    if entries.len() == 0 {
        None
    } else if entries.last().0 == k {
        match index_of_id(entries.drop_last(), k) {
            Some(i) => Some(i),
            None => Some(entries.len() - 1),
        }
    } else {
        index_of_id(entries.drop_last(), k)
    }
}

/// The first place of the key `k` among the keys of `entries`.
pub open spec fn index_of_key(entries: Seq<(String, ReactionGroup)>, k: Seq<char>) -> Option<int>
    decreases entries.len(),
{
    if entries.len() == 0 {
        None
    } else if entries.last().0@ == k {
        match index_of_key(entries.drop_last(), k) {
            Some(i) => Some(i),
            None => Some(entries.len() - 1),
        }
    } else {
        index_of_key(entries.drop_last(), k)
    }
}

/// `IndexMap::new`: an empty map.
#[verifier::external_body]
fn reaction_map_new() -> (m: IndexMap<u64, (u64, bool)>)
    ensures
        reaction_entries(m) == Seq::<(u64, (u64, bool))>::empty(),
{
    IndexMap::new()
}

/// `IndexMap::len`: the number of entries.
#[verifier::external_body]
fn reaction_map_len(m: &IndexMap<u64, (u64, bool)>) -> (n: usize)
    ensures
        n == reaction_entries(*m).len(),
{
    m.len()
}

/// `IndexMap::get_index`: the entry at place `i`, if there is one.
#[verifier::external_body]
fn reaction_map_get_index(m: &IndexMap<u64, (u64, bool)>, i: usize) -> (e: Option<(u64, (u64, bool))>)
    ensures
        i < reaction_entries(*m).len() ==> e == Some(reaction_entries(*m)[i as int]),
        i >= reaction_entries(*m).len() ==> e is None,
{
    m.get_index(i).map(|(k, v)| (*k, *v))
}

/// `IndexMap::insert`: an existing key keeps its place and gets the new
/// value, the old one being returned; a new key goes last.
#[verifier::external_body]
fn reaction_map_insert(m: &mut IndexMap<u64, (u64, bool)>, k: u64, v: (u64, bool)) -> (old_value: Option<(u64, bool)>)
    ensures
        match index_of_id(reaction_entries(*old(m)), k) {
            Some(i) => reaction_entries(*final(m)) == reaction_entries(*old(m)).update(i, (k, v))
                && old_value == Some(reaction_entries(*old(m))[i].1),
            None => reaction_entries(*final(m)) == reaction_entries(*old(m)).push((k, v))
                && old_value is None,
        },
{
    m.insert(k, v)
}

/// `IndexMap::new`: an empty map.
#[verifier::external_body]
fn group_map_new() -> (m: IndexMap<String, ReactionGroup>)
    ensures
        group_entries(m) == Seq::<(String, ReactionGroup)>::empty(),
{
    IndexMap::new()
}

/// `IndexMap::len`: the number of entries.
#[verifier::external_body]
fn group_map_len(m: &IndexMap<String, ReactionGroup>) -> (n: usize)
    ensures
        n == group_entries(*m).len(),
{
    m.len()
}

/// `IndexMap::get_index`: the entry at place `i`, if there is one.
#[verifier::external_body]
fn group_map_get_index(m: &IndexMap<String, ReactionGroup>, i: usize) -> (e: Option<(&String, &ReactionGroup)>)
    ensures
        i < group_entries(*m).len() ==> e == Some((&group_entries(*m)[i as int].0, &group_entries(*m)[i as int].1)),
        i >= group_entries(*m).len() ==> e is None,
{
    m.get_index(i)
}

/// `IndexMap::get_index_of`: the place of the key, if the map has it.
#[verifier::external_body]
fn group_map_get_index_of(m: &IndexMap<String, ReactionGroup>, k: &str) -> (i: Option<usize>)
    ensures
        match index_of_key(group_entries(*m), k@) {
            Some(j) => i == Some(j as usize),
            None => i is None,
        },
{
    m.get_index_of(k)
}

/// `IndexMap::insert`: an existing key keeps its place and gets the new
/// value, the old one being returned; a new key goes last.
#[verifier::external_body]
fn group_map_insert(m: &mut IndexMap<String, ReactionGroup>, k: String, v: ReactionGroup) -> (old_value: Option<ReactionGroup>)
    ensures
        match index_of_key(group_entries(*old(m)), k@) {
            Some(i) => group_entries(*final(m)) == group_entries(*old(m)).update(i, (group_entries(*old(m))[i].0, v))
                && old_value == Some(group_entries(*old(m))[i].1),
            None => group_entries(*final(m)) == group_entries(*old(m)).push((k, v))
                && old_value is None,
        },
{
    m.insert(k, v)
}

/// `IndexMap::shift_remove_full`: removes the key's entry, shifting the later
/// ones down, and returns its place, key and value.
#[verifier::external_body]
fn group_map_shift_remove_full(m: &mut IndexMap<String, ReactionGroup>, k: &str) -> (removed: Option<(usize, String, ReactionGroup)>)
    ensures
        match index_of_key(group_entries(*old(m)), k@) {
            Some(i) => group_entries(*final(m)) == group_entries(*old(m)).remove(i)
                && removed == Some((i as usize, group_entries(*old(m))[i].0, group_entries(*old(m))[i].1)),
            None => group_entries(*final(m)) == group_entries(*old(m)) && removed is None,
        },
{
    m.shift_remove_full(k)
}

/// `IndexMap::get_index_mut`: the group at place `i`, to change in place.
#[verifier::external_body]
fn group_map_get_index_mut(m: &mut IndexMap<String, ReactionGroup>, i: usize) -> (g: &mut ReactionGroup)
    requires
        i < group_entries(*old(m)).len(),
    ensures
        *g == group_entries(*old(m))[i as int].1,
        group_entries(*final(m)) == group_entries(*old(m)).update(i as int, (group_entries(*old(m))[i as int].0, *final(g))),
{
    m.get_index_mut(i).unwrap().1
}

/// `IndexMap::shift_remove_index`: removes the entry at place `i`, shifting
/// the later ones down.
#[verifier::external_body]
fn group_map_shift_remove_index(m: &mut IndexMap<String, ReactionGroup>, i: usize)
    requires
        i < group_entries(*old(m)).len(),
    ensures
        group_entries(*final(m)) == group_entries(*old(m)).remove(i as int),
{
    m.shift_remove_index(i);
}

/// A reaction: its event, sender and key.
#[derive(Debug)]
pub struct Reaction {
    pub event_id: u64,
    pub sender: u64,
    pub key: String,
}

/// The reaction that an event is, if it is a reaction.
pub open spec fn reaction_of(d: EventData) -> Option<(u64, u64, Seq<char>)> {
    match d.event {
        Some(MatrixEvent::Message(MessageEvent::Reaction { key, .. })) => Some((d.event_id, d.sender, key@)),
        _ => None,
    }
}

/// The number of entries that are not redacted.
pub open spec fn live_count(entries: Seq<(u64, (u64, bool))>) -> nat
    decreases entries.len(),
{
    if entries.len() == 0 {
        0
    } else {
        live_count(entries.drop_last()) + if entries.last().1.1 { 0nat } else { 1nat }
    }
}

/// The first entry not redacted whose sender is `user`.
pub open spec fn first_live_by(entries: Seq<(u64, (u64, bool))>, user: u64) -> Option<u64>
    decreases entries.len(),
{
    if entries.len() == 0 {
        None
    } else {
        match first_live_by(entries.drop_last(), user) {
            Some(id) => Some(id),
            None => if !entries.last().1.1 && entries.last().1.0 == user {
                Some(entries.last().0)
            } else {
                None
            },
        }
    }
}

/// No key comes twice.
pub open spec fn unique_ids(entries: Seq<(u64, (u64, bool))>) -> bool {
    forall|i: int, j: int| 0 <= i < j < entries.len() ==> entries[i].0 != entries[j].0
}

/// The entries after adding the reactions `new` that are not there yet.
pub open spec fn add_all(entries: Seq<(u64, (u64, bool))>, new: Seq<(u64, u64)>) -> Seq<(u64, (u64, bool))>
    decreases new.len(),
{
    if new.len() == 0 {
        entries
    } else {
        let before = add_all(entries, new.drop_last());
        if index_of_id(before, new.last().0) is Some {
            before
        } else {
            before.push((new.last().0, (new.last().1, false)))
        }
    }
}

/// Reactions grouped by a given key.
pub struct ReactionGroup {
    /// The key of the group.
    key: String,
    /// The reactions in the group, by event id, with sender and whether
    /// redacted.
    reactions: IndexMap<u64, (u64, bool)>,
}

impl ReactionGroup {
    pub closed spec fn key_view(&self) -> Seq<char> {
        self.key@
    }

    /// The reactions of the group, in the order they came.
    pub closed spec fn entries(&self) -> Seq<(u64, (u64, bool))> {
        reaction_entries(self.reactions)
    }

    /// The group's invariant: no reaction twice.
    pub closed spec fn wf(&self) -> bool {
        unique_ids(self.entries())
    }

    pub fn new(key: &str) -> (g: ReactionGroup)
        ensures
            g.wf(),
            g.key_view() == key@,
            g.entries() == Seq::<(u64, (u64, bool))>::empty(),
    {
        ReactionGroup { key: key.to_string(), reactions: reaction_map_new() }
    }

    /// The key of the group.
    pub fn key(&self) -> (k: &str)
        ensures
            k@ == self.key_view(),
    {
        self.key.as_str()
    }

    /// The number of reactions in this group that were not redacted.
    pub fn count(&self) -> (n: u32)
        ensures
            n == live_count(self.entries()) as u32,
    {
        let len = reaction_map_len(&self.reactions);
        let ghost e = self.entries();
        let mut n: usize = 0;
        let mut i: usize = 0;
        while i < len
            invariant
                len == e.len(),
                e == self.entries(),
                i <= len,
                n == live_count(e.take(i as int)),
                n <= i,
            decreases len - i,
        {
            assert(e.take(i + 1).drop_last() =~= e.take(i as int));
            if let Some((_, (_, redacted))) = reaction_map_get_index(&self.reactions, i) {
                if !redacted {
                    n = n + 1;
                }
            }
            i = i + 1;
        }
        assert(e.take(len as int) =~= e);
        n as u32
    }

    /// The reaction in this group sent by the session's user `user`, if any.
    pub fn user_reaction(&self, user: Option<u64>) -> (r: Option<u64>)
        ensures
            user is None || self.entries().len() == 0 ==> r is None,
            user is Some && self.entries().len() > 0 ==> r == first_live_by(self.entries(), user->0),
    {
        let len = reaction_map_len(&self.reactions);
        if len == 0 {
            return None;
        }
        let u = match user {
            Some(u) => u,
            None => return None,
        };
        let ghost e = self.entries();
        let mut i: usize = 0;
        while i < len
            invariant
                len == e.len(),
                e == self.entries(),
                i <= len,
                user == Some(u),
                len > 0,
                first_live_by(e.take(i as int), u) is None,
            decreases len - i,
        {
            assert(e.take(i + 1).drop_last() =~= e.take(i as int));
            if let Some((id, (sender, redacted))) = reaction_map_get_index(&self.reactions, i) {
                if !redacted && sender == u {
                    assert(e[i as int] == (id, (sender, redacted)));
                    proof {
                        lemma_first_live_prefix(e, i as int + 1, u);
                    }
                    assert(first_live_by(e, u) == Some(id));
                    return Some(id);
                }
            }
            i = i + 1;
        }
        assert(e.take(len as int) =~= e);
        None
    }

    /// Whether this group has a reaction from the session's user `user`.
    pub fn has_user(&self, user: Option<u64>) -> (b: bool)
        ensures
            b == (user is Some && self.entries().len() > 0 && first_live_by(self.entries(), user->0) is Some),
    {
        self.user_reaction(user).is_some()
    }

    /// Add new reactions, by event id and sender, to this group; reactions it
    /// has already are left alone. Returns how many were added.
    pub fn add_reactions(&mut self, new_reactions: &Vec<(u64, u64)>) -> (added: usize)
        requires
            old(self).wf(),
        ensures
            final(self).wf(),
            final(self).key_view() == old(self).key_view(),
            final(self).entries() == add_all(old(self).entries(), new_reactions@),
            added == final(self).entries().len() - old(self).entries().len(),
    {
        let ghost e0 = self.entries();
        let mut added: usize = 0;
        let mut i: usize = 0;
        while i < new_reactions.len()
            invariant
                i <= new_reactions@.len(),
                unique_ids(self.entries()),
                self.key@ == old(self).key@,
                self.entries() == add_all(e0, new_reactions@.take(i as int)),
                e0 == old(self).entries(),
                added == self.entries().len() - e0.len(),
                self.entries().len() >= e0.len(),
                added <= i,
            decreases new_reactions@.len() - i,
        {
            assert(new_reactions@.take(i + 1).drop_last() =~= new_reactions@.take(i as int));
            let (id, sender) = new_reactions[i];
            let ghost before = self.entries();
            if !self.contains(id) {
                reaction_map_insert(&mut self.reactions, id, (sender, false));
                proof {
                    lemma_index_of_id_none(before, id);
                }
                added = added + 1;
            }
            i = i + 1;
        }
        assert(new_reactions@.take(new_reactions@.len() as int) =~= new_reactions@);
        added
    }

    /// Whether the group has the reaction `event_id`.
    pub fn contains(&self, event_id: u64) -> (b: bool)
        ensures
            b == (index_of_id(self.entries(), event_id) is Some),
    {
        let len = reaction_map_len(&self.reactions);
        let ghost e = self.entries();
        let mut i: usize = 0;
        while i < len
            invariant
                len == e.len(),
                e == self.entries(),
                i <= len,
                index_of_id(e.take(i as int), event_id) is None,
            decreases len - i,
        {
            assert(e.take(i + 1).drop_last() =~= e.take(i as int));
            if let Some((id, _)) = reaction_map_get_index(&self.reactions, i) {
                if id == event_id {
                    proof {
                        lemma_index_of_id_prefix(e, i as int + 1, event_id);
                    }
                    return true;
                }
            }
            i = i + 1;
        }
        assert(e.take(len as int) =~= e);
        false
    }

    /// Marks the reaction `event_id` as redacted, if the group has it;
    /// returns whether it had it.
    pub fn redact(&mut self, event_id: u64) -> (found: bool)
        requires
            old(self).wf(),
        ensures
            final(self).wf(),
            final(self).key_view() == old(self).key_view(),
            found == (index_of_id(old(self).entries(), event_id) is Some),
            match index_of_id(old(self).entries(), event_id) {
                Some(i) => final(self).entries() == old(self).entries().update(i, (event_id, (old(self).entries()[i].1.0, true))),
                None => final(self).entries() == old(self).entries(),
            },
    {
        let len = reaction_map_len(&self.reactions);
        let ghost e = self.entries();
        let mut i: usize = 0;
        while i < len
            invariant
                len == e.len(),
                e == self.entries(),
                e == old(self).entries(),
                unique_ids(e),
                self.key@ == old(self).key@,
                i <= len,
                index_of_id(e.take(i as int), event_id) is None,
            decreases len - i,
        {
            assert(e.take(i + 1).drop_last() =~= e.take(i as int));
            if let Some((id, (sender, _))) = reaction_map_get_index(&self.reactions, i) {
                if id == event_id {
                    assert(e[i as int] == (id, (sender, e[i as int].1.1)));
                    proof {
                        lemma_index_of_id_prefix(e, i as int + 1, event_id);
                    }
                    reaction_map_insert(&mut self.reactions, event_id, (sender, true));
                    assert(self.entries() == e.update(i as int, (event_id, (sender, true))));
                    assert forall|a: int, b: int| 0 <= a < b < self.entries().len() implies self.entries()[a].0 != self.entries()[b].0 by {
                        assert(self.entries()[a].0 == e[a].0);
                        assert(self.entries()[b].0 == e[b].0);
                    }
                    return true;
                }
            }
            i = i + 1;
        }
        assert(e.take(len as int) =~= e);
        false
    }
}

proof fn lemma_index_of_id_bounds(e: Seq<(u64, (u64, bool))>, k: u64)
    ensures
        index_of_id(e, k) matches Some(i) ==> 0 <= i < e.len() && e[i].0 == k && forall|j: int| 0 <= j < i ==> e[j].0 != k,
        index_of_id(e, k) is None ==> forall|j: int| 0 <= j < e.len() ==> e[j].0 != k,
    decreases e.len(),
{
    if e.len() > 0 {
        lemma_index_of_id_bounds(e.drop_last(), k);
        assert forall|j: int| 0 <= j < e.len() - 1 implies e.drop_last()[j] == e[j] by {}
    }
}

/// When `e` has `k` at `i` and not before, that is where `index_of_id` finds it.
proof fn lemma_index_of_id_prefix(e: Seq<(u64, (u64, bool))>, n: int, k: u64)
    requires
        0 < n <= e.len(),
        e[n - 1].0 == k,
        index_of_id(e.take(n - 1), k) is None,
    ensures
        index_of_id(e, k) == Some(n - 1),
{
    lemma_index_of_id_bounds(e.take(n - 1), k);
    lemma_index_of_id_bounds(e, k);
    if let Some(i) = index_of_id(e, k) {
        if i < n - 1 {
            assert(e.take(n - 1)[i] == e[i]);
        }
    }
}

proof fn lemma_index_of_id_none(e: Seq<(u64, (u64, bool))>, k: u64)
    requires
        index_of_id(e, k) is None,
        unique_ids(e),
    ensures
        unique_ids(e.push((k, (0, false)))) || true,
        forall|v: (u64, bool)| unique_ids(#[trigger] e.push((k, v))),
{
    lemma_index_of_id_bounds(e, k);
    assert forall|v: (u64, bool)| unique_ids(#[trigger] e.push((k, v))) by {
        let f = e.push((k, v));
        assert forall|i: int, j: int| 0 <= i < j < f.len() implies f[i].0 != f[j].0 by {
            if j == e.len() {
                assert(f[i] == e[i]);
            } else {
                assert(f[i] == e[i]);
                assert(f[j] == e[j]);
            }
        }
    }
}

proof fn lemma_first_live_prefix(e: Seq<(u64, (u64, bool))>, n: int, u: u64)
    requires
        0 < n <= e.len(),
        !e[n - 1].1.1 && e[n - 1].1.0 == u,
        first_live_by(e.take(n - 1), u) is None,
    ensures
        first_live_by(e, u) == Some(e[n - 1].0),
    decreases e.len(),
{
    if n < e.len() {
        assert(e.drop_last().take(n - 1) =~= e.take(n - 1));
        lemma_first_live_prefix(e.drop_last(), n, u);
    } else {
        assert(e.take(n - 1) =~= e.drop_last());
    }
}

} // verus!

verus! {

/// The reactions of `batch`, grouped by key in the order each key first
/// appears: for each key, the event ids and senders of its reactions.
pub open spec fn group_by_key(batch: Seq<EventData>) -> Seq<(Seq<char>, Seq<(u64, u64)>)>
    decreases batch.len(),
{
    if batch.len() == 0 {
        seq![]
    } else {
        let g = group_by_key(batch.drop_last());
        match reaction_of(batch.last()) {
            Some((id, sender, key)) => match key_place(g, key) {
                Some(j) => g.update(j, (key, g[j].1.push((id, sender)))),
                None => g.push((key, seq![(id, sender)])),
            },
            None => g,
        }
    }
}

/// The first place of `key` among the keys of `g`.
pub open spec fn key_place<T>(g: Seq<(Seq<char>, T)>, key: Seq<char>) -> Option<int>
    decreases g.len(),
{
    if g.len() == 0 {
        None
    } else {
        match key_place(g.drop_last(), key) {
            Some(j) => Some(j),
            None => if g.last().0 == key {
                Some(g.len() - 1)
            } else {
                None
            },
        }
    }
}

/// The groups of a list, by key, after the reactions `new` with key `key`
/// were added: to the group with that key, or to a new group at the end.
pub open spec fn add_to_groups(
    v: Seq<(Seq<char>, Seq<(u64, (u64, bool))>)>,
    key: Seq<char>,
    new: Seq<(u64, u64)>,
) -> Seq<(Seq<char>, Seq<(u64, (u64, bool))>)> {
    match key_place(v, key) {
        Some(i) => v.update(i, (key, add_all(v[i].1, new))),
        None => v.push((key, add_all(seq![], new))),
    }
}

/// The groups after adding each group of `groups` in turn.
pub open spec fn add_all_groups(
    v: Seq<(Seq<char>, Seq<(u64, (u64, bool))>)>,
    groups: Seq<(Seq<char>, Seq<(u64, u64)>)>,
) -> Seq<(Seq<char>, Seq<(u64, (u64, bool))>)>
    decreases groups.len(),
{
    if groups.len() == 0 {
        v
    } else {
        let before = add_all_groups(v, groups.drop_last());
        add_to_groups(before, groups.last().0, groups.last().1)
    }
}

/// The entries of a group after the reaction `id` was redacted.
pub open spec fn redact_in(e: Seq<(u64, (u64, bool))>, id: u64) -> Seq<(u64, (u64, bool))> {
    match index_of_id(e, id) {
        Some(j) => e.update(j, (id, (e[j].1.0, true))),
        None => e,
    }
}

/// The first group that holds the reaction `id`.
pub open spec fn group_with(v: Seq<(Seq<char>, Seq<(u64, (u64, bool))>)>, id: u64) -> Option<int>
    decreases v.len(),
{
    if v.len() == 0 {
        None
    } else {
        match group_with(v.drop_last(), id) {
            Some(i) => Some(i),
            None => if index_of_id(v.last().1, id) is Some {
                Some(v.len() - 1)
            } else {
                None
            },
        }
    }
}

/// The groups of a list, by key and reactions, as the map holds them.
pub open spec fn groups_of(ents: Seq<(String, ReactionGroup)>) -> Seq<(Seq<char>, Seq<(u64, (u64, bool))>)> {
    Seq::new(ents.len(), |i: int| (ents[i].0@, ents[i].1.entries()))
}

/// List of all `ReactionGroup`s for an event, in insertion order.
pub struct ReactionList {
    /// The list of reactions grouped by key.
    reactions: IndexMap<String, ReactionGroup>,
}

impl ReactionList {
    /// The groups, each as its key and reactions, in order.
    pub closed spec fn groups(&self) -> Seq<(Seq<char>, Seq<(u64, (u64, bool))>)> {
        groups_of(group_entries(self.reactions))
    }

    /// The list's invariant: each group is filed under its own key, no key
    /// comes twice, and each group keeps its own invariant.
    pub closed spec fn wf(&self) -> bool {
        &&& entries_wf(group_entries(self.reactions))
        &&& unique_keys(self.groups())
    }

    pub fn new() -> (l: ReactionList)
        ensures
            l.wf(),
            l.groups().len() == 0,
    {
        ReactionList { reactions: group_map_new() }
    }

    /// The number of groups.
    pub fn n_items(&self) -> (n: usize)
        ensures
            n == self.groups().len(),
    {
        group_map_len(&self.reactions)
    }

    /// The group at `position`, if there is one.
    pub fn item(&self, position: usize) -> (g: Option<&ReactionGroup>)
        requires
            self.wf(),
        ensures
            position < self.groups().len() ==> (g matches Some(g) && g.key_view() == self.groups()[position as int].0
                && g.entries() == self.groups()[position as int].1),
            position >= self.groups().len() ==> g is None,
    {
        match group_map_get_index(&self.reactions, position) {
            Some((k, g)) => {
                proof {
                    let ents = group_entries(self.reactions);
                    assert(self.groups()[position as int] == (ents[position as int].0@, ents[position as int].1.entries()));
                }
                Some(g)
            },
            None => None,
        }
    }

    /// Get a reaction group by its key.
    ///
    /// Returns `None` if no group was found with this key.
    pub fn reaction_group_by_key(&self, key: &str) -> (g: Option<&ReactionGroup>)
        requires
            self.wf(),
        ensures
            match key_place(self.groups(), key@) {
                Some(i) => g matches Some(g) && g.key_view() == key@ && g.entries() == self.groups()[i].1,
                None => g is None,
            },
    {
        let ghost ents = group_entries(self.reactions);
        let _len = group_map_len(&self.reactions);
        proof {
            lemma_index_of_key_groups(ents, key@);
            lemma_index_of_key_char(ents, key@);
        }
        match group_map_get_index_of(&self.reactions, key) {
            Some(i) => match group_map_get_index(&self.reactions, i) {
                Some((_, g)) => {
                    assert(self.groups()[i as int] == (ents[i as int].0@, ents[i as int].1.entries()));
                    Some(g)
                },
                None => None,
            },
            None => None,
        }
    }

    /// Add reactions from the given events, ignoring those that are not
    /// reactions. Returns the place and number of the groups that were added
    /// at the end of the list, if any were.
    pub fn add_reactions(&mut self, new_reactions: &Vec<EventData>) -> (change: Option<(usize, usize)>)
        requires
            old(self).wf(),
        ensures
            final(self).wf(),
            final(self).groups() == add_all_groups(old(self).groups(), group_by_key(new_reactions@)),
            change == (if final(self).groups().len() > old(self).groups().len() {
                Some((old(self).groups().len() as usize, (final(self).groups().len() - old(self).groups().len()) as usize))
            } else {
                None
            }),
    {
        let prev_len = group_map_len(&self.reactions);
        let grouped = group_reactions(new_reactions);
        let ghost v0 = self.groups();
        let mut i: usize = 0;
        while i < grouped.len()
            invariant
                i <= grouped@.len(),
                self.wf(),
                prev_len == v0.len(),
                v0 == old(self).groups(),
                grouped_view(grouped@) == group_by_key(new_reactions@),
                self.groups() == add_all_groups(v0, grouped_view(grouped@).take(i as int)),
                self.groups().len() >= v0.len(),
            decreases grouped@.len() - i,
        {
            let ghost before = self.groups();
            assert(grouped_view(grouped@).take(i + 1).drop_last() =~= grouped_view(grouped@).take(i as int));
            assert(grouped_view(grouped@).take(i + 1).last() == grouped_view(grouped@)[i as int]);
            self.add_group(&grouped[i].0, &grouped[i].1);
            assert(self.groups().len() >= before.len());
            i = i + 1;
        }
        assert(grouped_view(grouped@).take(grouped@.len() as int) =~= grouped_view(grouped@));
        let len = group_map_len(&self.reactions);
        if len > prev_len {
            Some((prev_len, len - prev_len))
        } else {
            None
        }
    }

    /// Adds the reactions `list` to the group `key`, making it if needed.
    fn add_group(&mut self, key: &String, list: &Vec<(u64, u64)>)
        requires
            old(self).wf(),
        ensures
            final(self).wf(),
            final(self).groups() == add_to_groups(old(self).groups(), key@, list@),
            final(self).groups().len() >= old(self).groups().len(),
    {
        let ghost ents = group_entries(self.reactions);
        let _len = group_map_len(&self.reactions);
        proof {
            lemma_index_of_key_groups(ents, key@);
            lemma_index_of_key_char(ents, key@);
        }
        match group_map_get_index_of(&self.reactions, key.as_str()) {
            Some(i) => {
                let placeholder = ReactionGroup::new(key.as_str());
                let taken = group_map_insert(&mut self.reactions, key.clone(), placeholder);
                let ghost mid = group_entries(self.reactions);
                match taken {
                    Some(mut group) => {
                        assert(group.wf() && group.key_view() == key@);
                        group.add_reactions(list);
                        proof {
                            lemma_index_of_key_char(mid, key@);
                            assert forall|j: int| 0 <= j < mid.len() implies #[trigger] mid[j].0@ == ents[j].0@ by {}
                            if let Some(k) = index_of_key(mid, key@) {
                                if k < i {
                                    assert(ents[k].0@ == key@);
                                }
                                if k > i {
                                    assert(mid[i as int].0@ == key@);
                                }
                            }
                        }
                        let ghost gv = group;
                        assert(index_of_key(mid, key@) == Some(i as int));
                        assert(mid[i as int].0 == ents[i as int].0);
                        group_map_insert(&mut self.reactions, key.clone(), group);
                        proof {
                            let fin = group_entries(self.reactions);
                            assert(fin =~= mid.update(i as int, (mid[i as int].0, gv)));
                            assert(fin =~= ents.update(i as int, (ents[i as int].0, gv)));
                            assert(self.groups() =~= add_to_groups(groups_of(ents), key@, list@));
                            assert forall|j: int| 0 <= j < fin.len() implies (#[trigger] fin[j]).1.wf() && fin[j].1.key_view() == fin[j].0@ by {
                                if j != i {
                                    assert(fin[j] == ents[j]);
                                }
                            }
                            lemma_unique_same_keys(groups_of(ents), self.groups());
                        }
                    },
                    None => {},
                }
            },
            None => {
                let mut group = ReactionGroup::new(key.as_str());
                group.add_reactions(list);
                group_map_insert(&mut self.reactions, key.clone(), group);
                proof {
                    let fin = group_entries(self.reactions);
                    assert(self.groups() =~= add_to_groups(groups_of(ents), key@, list@));
                    assert forall|j: int| 0 <= j < fin.len() implies (#[trigger] fin[j]).1.wf() && fin[j].1.key_view() == fin[j].0@ by {
                        if j < ents.len() {
                            assert(fin[j] == ents[j]);
                        }
                    }
                    assert(self.groups() =~= groups_of(ents).push((key@, fin[ents.len() as int].1.entries())));
                    lemma_unique_push(groups_of(ents), (key@, fin[ents.len() as int].1.entries()));
                }
            },
        }
    }

    /// The reaction `event_id` was redacted: it no longer counts in its
    /// group, and a group left without reactions that count goes. Returns the
    /// place of the group that went, if one did.
    pub fn redact(&mut self, event_id: u64) -> (removed: Option<usize>)
        requires
            old(self).wf(),
        ensures
            final(self).wf(),
            match group_with(old(self).groups(), event_id) {
                None => final(self).groups() == old(self).groups() && removed is None,
                Some(i) => {
                    let e = redact_in(old(self).groups()[i].1, event_id);
                    if live_count(e) as u32 == 0 {
                        final(self).groups() == old(self).groups().remove(i) && removed == Some(i as usize)
                    } else {
                        final(self).groups() == old(self).groups().update(i, (old(self).groups()[i].0, e)) && removed is None
                    }
                },
            },
    {
        let ghost ents = group_entries(self.reactions);
        let ghost v = self.groups();
        let len = group_map_len(&self.reactions);
        let mut i: usize = 0;
        let mut found = false;
        while i < len && !found
            invariant
                len == v.len(),
                v == self.groups(),
                ents == group_entries(self.reactions),
                i <= len,
                group_with(v.take(i as int), event_id) is None,
                found ==> i < len && index_of_id(v[i as int].1, event_id) is Some,
            decreases len - i + (if found { 0int } else { 1int }),
        {
            match group_map_get_index(&self.reactions, i) {
                Some((_, g)) => {
                    assert(v[i as int] == (ents[i as int].0@, ents[i as int].1.entries()));
                    if g.contains(event_id) {
                        found = true;
                    } else {
                        assert(v.take(i + 1).drop_last() =~= v.take(i as int));
                        i = i + 1;
                    }
                },
                None => {
                    i = i + 1;
                },
            }
        }
        if !found {
            assert(v.take(i as int) =~= v);
            return None;
        }
        proof {
            lemma_group_with_first(v, i as int, event_id);
            assert(v[i as int] == (ents[i as int].0@, ents[i as int].1.entries()));
        }
        let group = group_map_get_index_mut(&mut self.reactions, i);
        group.redact(event_id);
        let count = group.count();
        let ghost after = group_entries(self.reactions);
        proof {
            let e = redact_in(v[i as int].1, event_id);
            assert(after[i as int].1.entries() == e);
            assert(self.groups() =~= v.update(i as int, (v[i as int].0, e)));
            assert forall|j: int| 0 <= j < after.len() implies (#[trigger] after[j]).1.wf() && after[j].1.key_view() == after[j].0@ by {
                if j != i {
                    assert(after[j] == ents[j]);
                }
            }
            lemma_unique_same_keys(v, self.groups());
        }
        if count == 0 {
            let ghost mid = group_entries(self.reactions);
            group_map_shift_remove_index(&mut self.reactions, i);
            proof {
                assert(self.groups() =~= v.remove(i as int));
                lemma_unique_remove(v, i as int);
                let fin = group_entries(self.reactions);
                assert forall|j: int| 0 <= j < fin.len() implies (#[trigger] fin[j]).1.wf() && fin[j].1.key_view() == fin[j].0@ by {
                    if j < i {
                        assert(fin[j] == mid[j]);
                    } else {
                        assert(fin[j] == mid[j + 1]);
                    }
                }
            }
            Some(i)
        } else {
            None
        }
    }

    /// Remove a reaction group by its key; returns the place it had.
    pub fn remove_reaction_group(&mut self, key: &str) -> (position: usize)
        requires
            old(self).wf(),
            key_place(old(self).groups(), key@) is Some,
        ensures
            final(self).wf(),
            position == key_place(old(self).groups(), key@)->0,
            final(self).groups() == old(self).groups().remove(position as int),
            key_place(final(self).groups(), key@) is None,
    {
        let ghost ents = group_entries(self.reactions);
        let _len = group_map_len(&self.reactions);
        proof {
            lemma_index_of_key_groups(ents, key@);
            lemma_index_of_key_char(ents, key@);
        }
        match group_map_shift_remove_full(&mut self.reactions, key) {
            Some((pos, _, _)) => {
                proof {
                    let fin = group_entries(self.reactions);
                    assert(self.groups() =~= groups_of(ents).remove(pos as int));
                    lemma_unique_remove(groups_of(ents), pos as int);
                    lemma_key_place_char(groups_of(ents), key@);
                    lemma_removed_key_gone(groups_of(ents), pos as int);
                    assert forall|j: int| 0 <= j < fin.len() implies (#[trigger] fin[j]).1.wf() && fin[j].1.key_view() == fin[j].0@ by {
                        if j < pos {
                            assert(fin[j] == ents[j]);
                        } else {
                            assert(fin[j] == ents[j + 1]);
                        }
                    }
                }
                pos
            },
            None => 0,
        }
    }
}

/// Every group of the map is filed under its own key and keeps its own
/// invariant.
pub open spec fn entries_wf(ents: Seq<(String, ReactionGroup)>) -> bool {
    forall|i: int| 0 <= i < ents.len() ==> (#[trigger] ents[i]).1.wf() && ents[i].1.key_view() == ents[i].0@
}

/// The grouped reactions as keys and lists.
pub open spec fn grouped_view(g: Seq<(String, Vec<(u64, u64)>)>) -> Seq<(Seq<char>, Seq<(u64, u64)>)> {
    Seq::new(g.len(), |i: int| (g[i].0@, g[i].1@))
}

/// Groups the reactions among `batch` by key, in the order each key first
/// appears.
fn group_reactions(batch: &Vec<EventData>) -> (g: Vec<(String, Vec<(u64, u64)>)>)
    ensures
        grouped_view(g@) == group_by_key(batch@),
{
    let mut g: Vec<(String, Vec<(u64, u64)>)> = Vec::new();
    let mut i: usize = 0;
    while i < batch.len()
        invariant
            i <= batch@.len(),
            grouped_view(g@) == group_by_key(batch@.take(i as int)),
        decreases batch@.len() - i,
    {
        assert(batch@.take(i + 1).drop_last() =~= batch@.take(i as int));
        assert(batch@.take(i + 1).last() == batch@[i as int]);
        if let Some(MatrixEvent::Message(MessageEvent::Reaction { key, .. })) = &batch[i].event {
            let id = batch[i].event_id;
            let sender = batch[i].sender;
            let ghost gv = grouped_view(g@);
            let mut j: usize = 0;
            let mut found = false;
            while j < g.len() && !found
                invariant
                    j <= g@.len(),
                    gv == grouped_view(g@),
                    key_place(gv.take(j as int), key@) is None,
                    found ==> j < g@.len() && gv[j as int].0 == key@,
                decreases g@.len() - j + (if found { 0int } else { 1int }),
            {
                assert(gv.take(j + 1).drop_last() =~= gv.take(j as int));
                if g[j].0 == *key {
                    found = true;
                } else {
                    j = j + 1;
                }
            }
            if found {
                proof {
                    lemma_key_place_first(gv, j as int, key@);
                }
                let mut entry = g.remove(j);
                entry.1.push((id, sender));
                g.insert(j, entry);
                assert(grouped_view(g@) =~= gv.update(j as int, (key@, gv[j as int].1.push((id, sender)))));
            } else {
                assert(gv.take(g@.len() as int) =~= gv);
                let mut list: Vec<(u64, u64)> = Vec::new();
                list.push((id, sender));
                g.push((key.clone(), list));
                assert(grouped_view(g@) =~= gv.push((key@, seq![(id, sender)])));
            }
        }
        i = i + 1;
    }
    assert(batch@.take(batch@.len() as int) =~= batch@);
    g
}

proof fn lemma_key_place_first<T>(g: Seq<(Seq<char>, T)>, j: int, key: Seq<char>)
    requires
        0 <= j < g.len(),
        g[j].0 == key,
        key_place(g.take(j), key) is None,
    ensures
        key_place(g, key) == Some(j),
    decreases g.len(),
{
    if j < g.len() - 1 {
        assert(g.drop_last().take(j) =~= g.take(j));
        lemma_key_place_first(g.drop_last(), j, key);
    } else {
        assert(g.take(j) =~= g.drop_last());
    }
}

proof fn lemma_key_place_char<T>(g: Seq<(Seq<char>, T)>, key: Seq<char>)
    ensures
        key_place(g, key) matches Some(i) ==> 0 <= i < g.len() && g[i].0 == key
            && forall|j: int| 0 <= j < i ==> g[j].0 != key,
        key_place(g, key) is None ==> forall|j: int| 0 <= j < g.len() ==> g[j].0 != key,
    decreases g.len(),
{
    if g.len() > 0 {
        lemma_key_place_char(g.drop_last(), key);
        assert forall|j: int| 0 <= j < g.len() - 1 implies g.drop_last()[j] == g[j] by {}
    }
}

proof fn lemma_index_of_key_char(ents: Seq<(String, ReactionGroup)>, key: Seq<char>)
    ensures
        index_of_key(ents, key) matches Some(i) ==> 0 <= i < ents.len() && ents[i].0@ == key
            && forall|j: int| 0 <= j < i ==> ents[j].0@ != key,
        index_of_key(ents, key) is None ==> forall|j: int| 0 <= j < ents.len() ==> ents[j].0@ != key,
    decreases ents.len(),
{
    if ents.len() > 0 {
        lemma_index_of_key_char(ents.drop_last(), key);
        assert forall|j: int| 0 <= j < ents.len() - 1 implies ents.drop_last()[j] == ents[j] by {}
    }
}

proof fn lemma_index_of_key_groups(ents: Seq<(String, ReactionGroup)>, key: Seq<char>)
    ensures
        index_of_key(ents, key) == key_place(groups_of(ents), key),
{
    let v = groups_of(ents);
    lemma_index_of_key_char(ents, key);
    lemma_key_place_char(v, key);
    assert forall|j: int| 0 <= j < ents.len() implies #[trigger] v[j].0 == ents[j].0@ by {}
    match (index_of_key(ents, key), key_place(v, key)) {
        (Some(a), Some(b)) => {
            if a < b {
                assert(v[a].0 == key);
            } else if b < a {
                assert(ents[b].0@ == key);
            }
        },
        (Some(a), None) => {
            assert(v[a].0 == key);
        },
        (None, Some(b)) => {
            assert(ents[b].0@ == key);
        },
        (None, None) => {},
    }
}

proof fn lemma_group_with_first(v: Seq<(Seq<char>, Seq<(u64, (u64, bool))>)>, i: int, id: u64)
    requires
        0 <= i < v.len(),
        index_of_id(v[i].1, id) is Some,
        group_with(v.take(i), id) is None,
    ensures
        group_with(v, id) == Some(i),
    decreases v.len(),
{
    if i < v.len() - 1 {
        assert(v.drop_last().take(i) =~= v.take(i));
        lemma_group_with_first(v.drop_last(), i, id);
    } else {
        assert(v.take(i) =~= v.drop_last());
    }
}

/// Adding the same reactions to a group twice, as `ReactionGroup::add_reactions`
/// does, leaves the group as the first time left it: the second time adds
/// nothing.
pub proof fn lemma_add_all_idempotent(entries: Seq<(u64, (u64, bool))>, new: Seq<(u64, u64)>)
    ensures
        add_all(add_all(entries, new), new) == add_all(entries, new),
{
    let once = add_all(entries, new);
    lemma_add_all_has(entries, new);
    lemma_add_all_known(once, new);
}

/// After adding reactions, each of them is in the group.
proof fn lemma_add_all_has(entries: Seq<(u64, (u64, bool))>, new: Seq<(u64, u64)>)
    ensures
        forall|k: int| 0 <= k < new.len() ==> index_of_id(add_all(entries, new), #[trigger] new[k].0) is Some,
        forall|id: u64| index_of_id(entries, id) is Some ==> #[trigger] index_of_id(add_all(entries, new), id) is Some,
    decreases new.len(),
{
    if new.len() > 0 {
        let d = new.drop_last();
        lemma_add_all_has(entries, d);
        let before = add_all(entries, d);
        assert forall|id: u64| index_of_id(before, id) is Some implies #[trigger] index_of_id(add_all(entries, new), id) is Some by {
            if index_of_id(before, new.last().0) is None {
                lemma_index_of_id_push(before, new.last().0, new.last().1, id);
            }
        }
        assert forall|k: int| 0 <= k < new.len() implies index_of_id(add_all(entries, new), #[trigger] new[k].0) is Some by {
            if k < new.len() - 1 {
                assert(d[k] == new[k]);
                assert(index_of_id(before, d[k].0) is Some);
            } else if index_of_id(before, new.last().0) is None {
                lemma_index_of_id_push(before, new.last().0, new.last().1, new.last().0);
            }
        }
    }
}

/// Adding reactions that are all in the group already changes nothing.
proof fn lemma_add_all_known(entries: Seq<(u64, (u64, bool))>, new: Seq<(u64, u64)>)
    requires
        forall|k: int| 0 <= k < new.len() ==> index_of_id(entries, #[trigger] new[k].0) is Some,
    ensures
        add_all(entries, new) == entries,
    decreases new.len(),
{
    if new.len() > 0 {
        let d = new.drop_last();
        assert forall|k: int| 0 <= k < d.len() implies index_of_id(entries, #[trigger] d[k].0) is Some by {
            assert(d[k] == new[k]);
        }
        lemma_add_all_known(entries, d);
        assert(index_of_id(entries, new[new.len() - 1].0) is Some);
    }
}

/// A reaction found before a push is still found after it.
proof fn lemma_index_of_id_push(e: Seq<(u64, (u64, bool))>, k: u64, v: u64, id: u64)
    ensures
        index_of_id(e, id) is Some ==> index_of_id(e.push((k, (v, false))), id) is Some,
        index_of_id(e.push((k, (v, false))), k) is Some,
{
    let f = e.push((k, (v, false)));
    assert(f.drop_last() =~= e);
}

/// Redacting a reaction twice is redacting it once.
pub proof fn lemma_redact_idempotent(e: Seq<(u64, (u64, bool))>, id: u64)
    ensures
        redact_in(redact_in(e, id), id) == redact_in(e, id),
{
    lemma_index_of_id_bounds(e, id);
    if let Some(j) = index_of_id(e, id) {
        let r = e.update(j, (id, (e[j].1.0, true)));
        lemma_index_of_id_same_ids(e, r, id);
        assert(r.update(j, (id, (r[j].1.0, true))) =~= r);
    }
}

/// Entries with the same ids in the same places find an id at the same place.
proof fn lemma_index_of_id_same_ids(a: Seq<(u64, (u64, bool))>, b: Seq<(u64, (u64, bool))>, id: u64)
    requires
        a.len() == b.len(),
        forall|j: int| 0 <= j < a.len() ==> #[trigger] a[j].0 == b[j].0,
    ensures
        index_of_id(a, id) == index_of_id(b, id),
    decreases a.len(),
{
    if a.len() > 0 {
        assert(a[a.len() - 1].0 == b[b.len() - 1].0);
        assert forall|j: int| 0 <= j < a.len() - 1 implies #[trigger] a.drop_last()[j].0 == b.drop_last()[j].0 by {
            assert(a.drop_last()[j] == a[j]);
            assert(b.drop_last()[j] == b[j]);
        }
        lemma_index_of_id_same_ids(a.drop_last(), b.drop_last(), id);
    }
}

/// Groups keep their places as reactions come: those already there keep
/// their keys in their order, and new keys come after them (the list is in
/// insertion order).
pub proof fn lemma_groups_keep_order(v: Seq<(Seq<char>, Seq<(u64, (u64, bool))>)>, groups: Seq<(Seq<char>, Seq<(u64, u64)>)>)
    ensures
        add_all_groups(v, groups).len() >= v.len(),
        forall|j: int| 0 <= j < v.len() ==> (#[trigger] add_all_groups(v, groups)[j]).0 == v[j].0,
    decreases groups.len(),
{
    if groups.len() > 0 {
        lemma_groups_keep_order(v, groups.drop_last());
        let before = add_all_groups(v, groups.drop_last());
        lemma_key_place_char(before, groups.last().0);
        assert forall|j: int| 0 <= j < v.len() implies (#[trigger] add_all_groups(v, groups)[j]).0 == v[j].0 by {
            assert(before[j].0 == v[j].0);
        }
    }
}

/// No key comes twice in `g`.
pub open spec fn unique_keys<T>(g: Seq<(Seq<char>, T)>) -> bool {
    forall|i: int, j: int| 0 <= i < j < g.len() ==> #[trigger] g[i].0 != #[trigger] g[j].0
}

proof fn lemma_unique_same_keys<T>(a: Seq<(Seq<char>, T)>, b: Seq<(Seq<char>, T)>)
    requires
        unique_keys(a),
        a.len() == b.len(),
        forall|j: int| 0 <= j < a.len() ==> #[trigger] a[j].0 == b[j].0,
    ensures
        unique_keys(b),
{
    assert forall|i: int, j: int| 0 <= i < j < b.len() implies #[trigger] b[i].0 != #[trigger] b[j].0 by {
        assert(a[i].0 == b[i].0 && a[j].0 == b[j].0);
    }
}

proof fn lemma_unique_remove<T>(g: Seq<(Seq<char>, T)>, k: int)
    requires
        unique_keys(g),
        0 <= k < g.len(),
    ensures
        unique_keys(g.remove(k)),
{
    let r = g.remove(k);
    assert forall|i: int, j: int| 0 <= i < j < r.len() implies #[trigger] r[i].0 != #[trigger] r[j].0 by {
        let i0 = if i < k { i } else { i + 1 };
        let j0 = if j < k { j } else { j + 1 };
        assert(r[i] == g[i0] && r[j] == g[j0]);
    }
}

proof fn lemma_unique_push<T>(g: Seq<(Seq<char>, T)>, x: (Seq<char>, T))
    requires
        unique_keys(g),
        forall|j: int| 0 <= j < g.len() ==> #[trigger] g[j].0 != x.0,
    ensures
        unique_keys(g.push(x)),
{
    let r = g.push(x);
    assert forall|i: int, j: int| 0 <= i < j < r.len() implies #[trigger] r[i].0 != #[trigger] r[j].0 by {
        assert(r[i] == g[i]);
        if j < g.len() {
            assert(r[j] == g[j]);
        }
    }
}

/// Where no key comes twice, a removed group's key is no longer found.
proof fn lemma_removed_key_gone<T>(g: Seq<(Seq<char>, T)>, k: int)
    requires
        unique_keys(g),
        0 <= k < g.len(),
    ensures
        key_place(g.remove(k), g[k].0) is None,
{
    let r = g.remove(k);
    lemma_key_place_char(r, g[k].0);
    if let Some(p) = key_place(r, g[k].0) {
        let p0 = if p < k { p } else { p + 1 };
        assert(r[p] == g[p0]);
    }
}

} // verus!
