use vstd::prelude::*;

use indexmap::IndexMap;

use crate::room::{MembershipKind, Room};

verus! {

/// The entries of the map of rooms, in their order: the room's id and the
/// room.
pub uninterp spec fn room_entries(m: IndexMap<String, Room>) -> Seq<(String, Room)>;

/// The ids of the entries.
pub open spec fn ids_of(entries: Seq<(String, Room)>) -> Seq<Seq<char>> {
    Seq::new(entries.len(), |i: int| entries[i].0@)
}

/// The first place of `id` in `ids`.
pub open spec fn place_of_id(ids: Seq<Seq<char>>, id: Seq<char>) -> Option<int>
    decreases ids.len(),
{
    if ids.len() == 0 {
        None
    } else {
        match place_of_id(ids.drop_last(), id) {
            Some(i) => Some(i),
            None => if ids.last() == id {
                Some(ids.len() - 1)
            } else {
                None
            },
        }
    }
}

/// `IndexMap::new`: an empty map.
#[verifier::external_body]
fn room_map_new() -> (m: IndexMap<String, Room>)
    ensures
        room_entries(m) == Seq::<(String, Room)>::empty(),
{
    IndexMap::new()
}

/// `IndexMap::len`: the number of entries.
#[verifier::external_body]
fn room_map_len(m: &IndexMap<String, Room>) -> (n: usize)
    ensures
        n == room_entries(*m).len(),
{
    m.len()
}

/// `IndexMap::get_index`: the entry at place `i`, if there is one.
#[verifier::external_body]
fn room_map_get_index(m: &IndexMap<String, Room>, i: usize) -> (e: Option<(&String, &Room)>)
    ensures
        i < room_entries(*m).len() ==> e == Some((&room_entries(*m)[i as int].0, &room_entries(*m)[i as int].1)),
        i >= room_entries(*m).len() ==> e is None,
{
    m.get_index(i)
}

/// `IndexMap::get_index_of`: the place of the key, if the map has it.
#[verifier::external_body]
fn room_map_get_index_of(m: &IndexMap<String, Room>, k: &str) -> (i: Option<usize>)
    ensures
        match place_of_id(ids_of(room_entries(*m)), k@) {
            Some(j) => i matches Some(x) && x as int == j,
            None => i is None,
        },
{
    m.get_index_of(k)
}

/// `IndexMap::get_index_mut`: the room at place `i`, to change in place.
#[verifier::external_body]
fn room_map_get_index_mut(m: &mut IndexMap<String, Room>, i: usize) -> (r: &mut Room)
    requires
        i < room_entries(*old(m)).len(),
    ensures
        *r == room_entries(*old(m))[i as int].1,
        room_entries(*final(m)) == room_entries(*old(m)).update(i as int, (room_entries(*old(m))[i as int].0, *final(r))),
{
    m.get_index_mut(i).unwrap().1
}

/// `IndexMap::insert`: an existing key keeps its place and gets the new
/// value; a new key goes last.
#[verifier::external_body]
fn room_map_insert(m: &mut IndexMap<String, Room>, k: String, v: Room)
    ensures
        match place_of_id(ids_of(room_entries(*old(m))), k@) {
            Some(i) => room_entries(*final(m)) == room_entries(*old(m)).update(i, (room_entries(*old(m))[i].0, v)),
            None => room_entries(*final(m)) == room_entries(*old(m)).push((k, v)),
        },
{
    m.insert(k, v);
}

/// `IndexMap::shift_remove_full`: removes the key's entry, shifting the later
/// ones down, and returns its place.
#[verifier::external_body]
fn room_map_shift_remove_full(m: &mut IndexMap<String, Room>, k: &str) -> (position: Option<usize>)
    ensures
        match place_of_id(ids_of(room_entries(*old(m))), k@) {
            Some(i) => room_entries(*final(m)) == room_entries(*old(m)).remove(i)
                && (position matches Some(p) && p as int == i),
            None => room_entries(*final(m)) == room_entries(*old(m)) && position is None,
        },
{
    m.shift_remove_full(k).map(|(position, _, _)| position)
}

/// The ids after adding each id of `new` that is not there yet.
pub open spec fn with_ids(ids: Seq<Seq<char>>, new: Seq<Seq<char>>) -> Seq<Seq<char>>
    decreases new.len(),
{
    if new.len() == 0 {
        ids
    } else {
        let before = with_ids(ids, new.drop_last());
        if place_of_id(before, new.last()) is Some {
            before
        } else {
            before.push(new.last())
        }
    }
}

/// What a sync says of a room: its id, and its counts and topic.
#[derive(Debug)]
pub struct RoomSync {
    pub room_id: String,
    pub highlight_count: u64,
    pub topic: Option<String>,
}

proof fn lemma_place_of_id(ids: Seq<Seq<char>>, id: Seq<char>)
    ensures
        place_of_id(ids, id) matches Some(i) ==> 0 <= i < ids.len() && ids[i] == id,
        place_of_id(ids, id) is None ==> forall|j: int| 0 <= j < ids.len() ==> ids[j] != id,
    decreases ids.len(),
{
    if ids.len() > 0 {
        lemma_place_of_id(ids.drop_last(), id);
        assert forall|j: int| 0 <= j < ids.len() - 1 implies ids.drop_last()[j] == ids[j] by {}
    }
}

proof fn lemma_place_same_ids(a: Seq<Seq<char>>, b: Seq<Seq<char>>, id: Seq<char>)
    requires
        a == b,
    ensures
        place_of_id(a, id) == place_of_id(b, id),
{
}

/// The rooms of a session, in the order they became known.
pub struct RoomList {
    list: IndexMap<String, Room>,
}

impl RoomList {
    /// The ids of the rooms, in order.
    pub closed spec fn ids(&self) -> Seq<Seq<char>> {
        ids_of(room_entries(self.list))
    }

    /// The room at place `i`.
    pub closed spec fn room_at(&self, i: int) -> Room {
        room_entries(self.list)[i].1
    }

    /// No room comes twice.
    pub closed spec fn wf(&self) -> bool {
        unique_ids(self.ids())
    }

    pub fn new() -> (l: RoomList)
        ensures
            l.wf(),
            l.ids().len() == 0,
    {
        let l = RoomList { list: room_map_new() };
        assert(l.ids() =~= Seq::<Seq<char>>::empty());
        l
    }

    /// The number of rooms.
    pub fn n_items(&self) -> (n: usize)
        ensures
            n == self.ids().len(),
    {
        room_map_len(&self.list)
    }

    /// The room at `position`, if there is one.
    pub fn item(&self, position: usize) -> (r: Option<&Room>)
        ensures
            position < self.ids().len() ==> r == Some(&self.room_at(position as int)),
            position >= self.ids().len() ==> r is None,
    {
        match room_map_get_index(&self.list, position) {
            Some((_, room)) => Some(room),
            None => None,
        }
    }

    /// The room with the id `room_id`, if there is one.
    pub fn get(&self, room_id: &str) -> (r: Option<&Room>)
        ensures
            match place_of_id(self.ids(), room_id@) {
                Some(i) => r == Some(&self.room_at(i)),
                None => r is None,
            },
    {
        proof {
            lemma_place_of_id(self.ids(), room_id@);
        }
        match room_map_get_index_of(&self.list, room_id) {
            Some(i) => match room_map_get_index(&self.list, i) {
                Some((_, room)) => Some(room),
                None => None,
            },
            None => None,
        }
    }

    /// The place of the room with the id `room_id`, if there is one.
    pub fn position(&self, room_id: &str) -> (p: Option<usize>)
        ensures
            match place_of_id(self.ids(), room_id@) {
                Some(i) => p matches Some(x) && x as int == i,
                None => p is None,
            },
    {
        room_map_get_index_of(&self.list, room_id)
    }

    /// Whether there is a room with the id `room_id`.
    pub fn contains_key(&self, room_id: &str) -> (b: bool)
        ensures
            b == (place_of_id(self.ids(), room_id@) is Some),
    {
        room_map_get_index_of(&self.list, room_id).is_some()
    }

    /// Removes the room with the id `room_id`; returns the place it had.
    pub fn remove(&mut self, room_id: &str) -> (position: Option<usize>)
        requires
            old(self).wf(),
        ensures
            final(self).wf(),
            match place_of_id(old(self).ids(), room_id@) {
                Some(i) => (position matches Some(p) && p as int == i) && final(self).ids() == old(self).ids().remove(i),
                None => position is None && final(self).ids() == old(self).ids(),
            },
            place_of_id(final(self).ids(), room_id@) is None,
    {
        let ghost e = room_entries(self.list);
        let position = room_map_shift_remove_full(&mut self.list, room_id);
        proof {
            lemma_place_of_id(ids_of(e), room_id@);
            if let Some(i) = place_of_id(ids_of(e), room_id@) {
                assert(self.ids() =~= ids_of(e).remove(i));
                lemma_removed_not_found(ids_of(e), i);
                assert forall|a: int, b: int| 0 <= a < b < self.ids().len() implies self.ids()[a] != self.ids()[b] by {
                    let a0 = if a < i { a } else { a + 1 };
                    let b0 = if b < i { b } else { b + 1 };
                    assert(self.ids()[a] == ids_of(e)[a0]);
                    assert(self.ids()[b] == ids_of(e)[b0]);
                }
            }
        }
        position
    }

    /// Adds a room, not yet synced, for each id that is not there yet; returns
    /// where the added rooms start and how many ids were given, when some
    /// were. The ids are expected to be new: their number is counted from the
    /// end of the list.
    pub fn load(&mut self, room_ids: Vec<String>) -> (added: Option<(usize, usize)>)
        requires
            old(self).wf(),
            with_ids(old(self).ids(), Seq::new(room_ids@.len(), |i: int| room_ids@[i]@)).len() >= room_ids@.len(),
        ensures
            final(self).wf(),
            final(self).ids() == with_ids(old(self).ids(), Seq::new(room_ids@.len(), |i: int| room_ids@[i]@)),
            room_ids@.len() == 0 ==> added is None,
            room_ids@.len() > 0 ==> added == Some(((final(self).ids().len() - room_ids@.len()) as usize, room_ids@.len() as usize)),
    {
        let n = room_ids.len();
        let ghost new_ids = Seq::new(room_ids@.len(), |i: int| room_ids@[i]@);
        let ghost ids0 = self.ids();
        let mut i: usize = 0;
        let mut rest = room_ids;
        let ghost all = rest@;
        while rest.len() > 0
            invariant
                all.len() == n,
                new_ids == Seq::new(all.len(), |k: int| all[k]@),
                rest@ == all.skip(i as int),
                i <= n,
                self.ids() == with_ids(ids0, new_ids.take(i as int)),
            decreases rest@.len(),
        {
            let id = rest.remove(0);
            assert(id == all[i as int]);
            assert(new_ids.take(i + 1).drop_last() =~= new_ids.take(i as int));
            assert(new_ids.take(i + 1).last() == id@);
            let ghost e = room_entries(self.list);
            let ghost idv = id@;
            room_map_insert(&mut self.list, id, Room::new());
            proof {
                lemma_place_of_id(ids_of(e), idv);
                if let Some(k) = place_of_id(ids_of(e), idv) {
                    assert(self.ids() =~= ids_of(e));
                } else {
                    assert(self.ids() =~= ids_of(e).push(idv));
                }
            }
            i = i + 1;
            assert(rest@ =~= all.skip(i as int));
        }
        assert(new_ids.take(n as int) =~= new_ids);
        proof {
            lemma_ids_unique_with(ids0, new_ids);
        }
        if n > 0 {
            let len = room_map_len(&self.list);
            Some((len - n, n))
        } else {
            None
        }
    }

    /// Takes what a sync says of the rooms the user left, joined and is
    /// invited to, in that order: a room not known yet is added. Returns
    /// where the added rooms start and how many there are, when some were,
    /// and, for each room synced in order, whether its kind changed.
    pub fn handle_response_rooms(&mut self, leave: Vec<RoomSync>, join: Vec<RoomSync>, invite: Vec<RoomSync>) -> (r: (Option<(usize, usize)>, Vec<bool>))
        requires
            old(self).wf(),
        ensures
            final(self).wf(),
            final(self).ids() == with_ids(
                with_ids(
                    with_ids(old(self).ids(), Seq::new(leave@.len(), |i: int| leave@[i].room_id@)),
                    Seq::new(join@.len(), |i: int| join@[i].room_id@),
                ),
                Seq::new(invite@.len(), |i: int| invite@[i].room_id@),
            ),
            r.1@.len() == leave@.len() + join@.len() + invite@.len(),
            ({
                let added = final(self).ids().len() - old(self).ids().len();
                if added > 0 {
                    r.0 == Some((old(self).ids().len() as usize, added as usize))
                } else {
                    r.0 is None
                }
            }),
            forall|i: int| 0 <= i < final(self).ids().len() ==> {
                let id = #[trigger] final(self).ids()[i];
                &&& (place_of_id(Seq::new(invite@.len(), |k: int| invite@[k].room_id@), id) is Some ==>
                    final(self).room_at(i).membership() == Some(MembershipKind::Invited))
                &&& (place_of_id(Seq::new(invite@.len(), |k: int| invite@[k].room_id@), id) is None
                    && place_of_id(Seq::new(join@.len(), |k: int| join@[k].room_id@), id) is Some ==>
                    final(self).room_at(i).membership() == Some(MembershipKind::Joined))
            },
    {
        let ghost ids0 = self.ids();
        let ghost leave_ids = Seq::new(leave@.len(), |i: int| leave@[i].room_id@);
        let ghost join_ids = Seq::new(join@.len(), |i: int| join@[i].room_id@);
        let ghost invite_ids = Seq::new(invite@.len(), |i: int| invite@[i].room_id@);
        let prev_len = room_map_len(&self.list);
        let mut changed: Vec<bool> = Vec::new();
        self.sync_rooms(leave, MembershipKind::Left, &mut changed);
        let ghost ids1 = self.ids();
        self.sync_rooms(join, MembershipKind::Joined, &mut changed);
        let ghost ids2 = self.ids();
        let ghost r2 = room_entries(self.list);
        assert(forall|i: int| 0 <= i < ids2.len() && place_of_id(join_ids, #[trigger] ids2[i]) is Some
            ==> r2[i].1.membership() == Some(MembershipKind::Joined));
        self.sync_rooms(invite, MembershipKind::Invited, &mut changed);
        proof {
            lemma_with_ids_prefix(ids2, invite_ids);
            assert forall|i: int| 0 <= i < self.ids().len() implies {
                let id = #[trigger] self.ids()[i];
                &&& (place_of_id(invite_ids, id) is Some ==> self.room_at(i).membership() == Some(MembershipKind::Invited))
                &&& (place_of_id(invite_ids, id) is None && place_of_id(join_ids, id) is Some ==>
                    self.room_at(i).membership() == Some(MembershipKind::Joined))
            } by {
                let id = self.ids()[i];
                if place_of_id(invite_ids, id) is None {
                    assert(i < ids2.len());
                    assert(ids2[i] == id);
                    assert(self.room_at(i) == r2[i].1);
                }
            }
        }
        let len = room_map_len(&self.list);
        proof {
            lemma_with_ids_grows(ids0, leave_ids);
            lemma_with_ids_grows(ids1, join_ids);
            lemma_with_ids_grows(ids2, invite_ids);
        }
        let added = len - prev_len;
        if added > 0 {
            (Some((prev_len, added)), changed)
        } else {
            (None, changed)
        }
    }

    /// Syncs the rooms `rooms`, of the kind `kind`, adding those not known
    /// yet, and appends to `changed` whether the kind of each changed.
    fn sync_rooms(&mut self, rooms: Vec<RoomSync>, kind: MembershipKind, changed: &mut Vec<bool>)
        requires
            old(self).wf(),
        ensures
            final(self).wf(),
            final(self).ids() == with_ids(old(self).ids(), Seq::new(rooms@.len(), |i: int| rooms@[i].room_id@)),
            final(changed)@.len() == old(changed)@.len() + rooms@.len(),
            forall|i: int| 0 <= i < final(self).ids().len() ==> {
                let id = #[trigger] final(self).ids()[i];
                if place_of_id(Seq::new(rooms@.len(), |k: int| rooms@[k].room_id@), id) is Some {
                    final(self).room_at(i).membership() == Some(kind)
                } else {
                    i < old(self).ids().len() && final(self).room_at(i) == old(self).room_at(i)
                }
            },
    {
        let n = rooms.len();
        let ghost new_ids = Seq::new(rooms@.len(), |i: int| rooms@[i].room_id@);
        let ghost ids0 = self.ids();
        let ghost e0 = room_entries(self.list);
        let mut i: usize = 0;
        let mut rest = rooms;
        let ghost all = rest@;
        while rest.len() > 0
            invariant
                all.len() == n,
                new_ids == Seq::new(all.len(), |k: int| all[k].room_id@),
                rest@ == all.skip(i as int),
                i <= n,
                ids0 == ids_of(e0),
                unique_ids(ids0),
                self.ids() == with_ids(ids0, new_ids.take(i as int)),
                changed@.len() == old(changed)@.len() + i,
                forall|j: int| 0 <= j < self.ids().len() ==> {
                    let id = #[trigger] self.ids()[j];
                    if place_of_id(new_ids.take(i as int), id) is Some {
                        self.room_at(j).membership() == Some(kind)
                    } else {
                        j < ids0.len() && self.room_at(j) == e0[j].1
                    }
                },
            decreases rest@.len(),
        {
            let sync = rest.remove(0);
            assert(sync == all[i as int]);
            assert(new_ids.take(i + 1).drop_last() =~= new_ids.take(i as int));
            assert(new_ids.take(i + 1).last() == sync.room_id@);
            let ghost e = room_entries(self.list);
            let ghost idv = sync.room_id@;
            let ghost prefix = new_ids.take(i as int);
            proof {
                lemma_place_of_id(ids_of(e), idv);
                lemma_ids_unique_with(ids0, prefix);
            }
            let index = match room_map_get_index_of(&self.list, sync.room_id.as_str()) {
                Some(k) => k,
                None => {
                    let len = room_map_len(&self.list);
                    room_map_insert(&mut self.list, sync.room_id, Room::new());
                    proof {
                        assert(self.ids() =~= ids_of(e).push(idv));
                    }
                    len
                },
            };
            let ghost e1 = room_entries(self.list);
            let room = room_map_get_index_mut(&mut self.list, index);
            let c = room.set_matrix_room(kind, sync.highlight_count, sync.topic);
            changed.push(c);
            proof {
                let e2 = room_entries(self.list);
                assert(ids_of(e2) =~= ids_of(e1));
                assert(self.ids() == with_ids(ids0, new_ids.take(i + 1)));
                assert forall|j: int| 0 <= j < self.ids().len() implies {
                    let id = #[trigger] self.ids()[j];
                    if place_of_id(new_ids.take(i + 1), id) is Some {
                        self.room_at(j).membership() == Some(kind)
                    } else {
                        j < ids0.len() && self.room_at(j) == e0[j].1
                    }
                } by {
                    let id = self.ids()[j];
                    lemma_place_of_id(new_ids.take(i + 1), id);
                    lemma_place_of_id(prefix, id);
                    if j != index {
                        assert(self.room_at(j) == e1[j].1);
                        assert(ids_of(e1)[j] == id);
                        if j < e.len() {
                            assert(e1[j] == e[j]);
                        }
                        if id == idv {
                            lemma_place_unique(ids_of(e1), j, index as int);
                        }
                        if place_of_id(new_ids.take(i + 1), id) is None {
                            assert(place_of_id(prefix, id) is None) by {
                                if let Some(q) = place_of_id(prefix, id) {
                                    assert(new_ids.take(i + 1)[q] == id);
                                }
                            }
                        } else if place_of_id(prefix, id) is None {
                            let q = place_of_id(new_ids.take(i + 1), id)->0;
                            if q < i {
                                assert(prefix[q] == id);
                            }
                        }
                    } else {
                        assert(id == idv);
                        assert(new_ids.take(i + 1)[i as int] == idv);
                    }
                }
            }
            i = i + 1;
            assert(rest@ =~= all.skip(i as int));
        }
        assert(new_ids.take(n as int) =~= new_ids);
        proof {
            lemma_ids_unique_with(ids0, new_ids);
        }
    }
}

/// Adding ids keeps the ids there are, in their places.
proof fn lemma_with_ids_prefix(ids: Seq<Seq<char>>, new: Seq<Seq<char>>)
    ensures
        with_ids(ids, new).len() >= ids.len(),
        forall|j: int| 0 <= j < ids.len() ==> #[trigger] with_ids(ids, new)[j] == ids[j],
    decreases new.len(),
{
    if new.len() > 0 {
        lemma_with_ids_prefix(ids, new.drop_last());
    }
}

/// Adding ids never makes the list shorter.
proof fn lemma_with_ids_grows(ids: Seq<Seq<char>>, new: Seq<Seq<char>>)
    ensures
        with_ids(ids, new).len() >= ids.len(),
    decreases new.len(),
{
    if new.len() > 0 {
        lemma_with_ids_grows(ids, new.drop_last());
    }
}

/// In a list without repeated ids, an id is at one place only.
proof fn lemma_place_unique(ids: Seq<Seq<char>>, a: int, b: int)
    requires
        0 <= a < ids.len(),
        0 <= b < ids.len(),
        ids[a] == ids[b],
        unique_ids(ids),
    ensures
        a == b,
{
}

/// No id comes twice.
pub open spec fn unique_ids(ids: Seq<Seq<char>>) -> bool {
    forall|i: int, j: int| 0 <= i < j < ids.len() ==> ids[i] != ids[j]
}

proof fn lemma_ids_unique_with(ids: Seq<Seq<char>>, new: Seq<Seq<char>>)
    requires
        unique_ids(ids),
    ensures
        unique_ids(with_ids(ids, new)),
    decreases new.len(),
{
    if new.len() > 0 {
        lemma_ids_unique_with(ids, new.drop_last());
        let before = with_ids(ids, new.drop_last());
        lemma_place_of_id(before, new.last());
    }
}

/// In a list without repeated ids, a removed room is no longer found.
pub proof fn lemma_removed_not_found(ids: Seq<Seq<char>>, i: int)
    requires
        unique_ids(ids),
        0 <= i < ids.len(),
    ensures
        place_of_id(ids.remove(i), ids[i]) is None,
{
    let r = ids.remove(i);
    lemma_place_of_id(r, ids[i]);
    if let Some(k) = place_of_id(r, ids[i]) {
        if k < i {
            assert(r[k] == ids[k]);
        } else {
            assert(r[k] == ids[k + 1]);
        }
    }
}

} // verus!
