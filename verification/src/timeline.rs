use vstd::prelude::*;

use std::collections::HashMap;

use crate::event::{EventData, hides_header, is_hidden, related_event};

verus! {

broadcast use vstd::std_specs::hash::group_hash_axioms;

/// What a row of the room history holds.
#[derive(Clone, Copy, Debug, PartialEq, Eq, Structural)]
pub enum ItemType {
    /// An event, by its place in the timeline's store of events.
    Event(usize),
    /// A divider before the first event of a day, with that event's day and
    /// time.
    DayDivider { day: i64, timestamp: i64 },
    NewMessageDivider,
    LoadingSpinner,
}

/// A row inside the room history.
#[derive(Clone, Copy, Debug, PartialEq, Eq, Structural)]
pub struct Item {
    pub item_type: ItemType,
    /// Whether the row shows its header; only events have one.
    pub show_header: bool,
}

/// Whether the row is an event that may hide its header.
pub open spec fn item_hideable(datas: Seq<EventData>, it: Item) -> bool {
    match it.item_type {
        ItemType::Event(h) => h < datas.len() && hides_header(datas[h as int].event),
        _ => false,
    }
}

/// The sender of the row's event.
pub open spec fn item_sender(datas: Seq<EventData>, it: Item) -> Option<u64> {
    match it.item_type {
        ItemType::Event(h) => if h < datas.len() {
            Some(datas[h as int].sender)
        } else {
            None
        },
        _ => None,
    }
}

/// The calendar day of the row's event.
pub open spec fn item_day(datas: Seq<EventData>, it: Item) -> Option<i64> {
    match it.item_type {
        ItemType::Event(h) => if h < datas.len() {
            Some(datas[h as int].day)
        } else {
            None
        },
        _ => None,
    }
}

/// The sender that the row at `i` is compared with: that of the row before,
/// when that row may hide its header.
pub open spec fn previous_sender(datas: Seq<EventData>, items: Seq<Item>, i: int) -> Option<u64> {
    if i > 0 && item_hideable(datas, items[i - 1]) {
        item_sender(datas, items[i - 1])
    } else {
        None
    }
}

/// Whether the row at `i` should show its header: it may hide its header,
/// and the row before is not one that may hide its header and has the same
/// sender.
pub open spec fn header_for(datas: Seq<EventData>, items: Seq<Item>, i: int) -> bool {
    item_hideable(datas, items[i]) && !(i > 0 && item_hideable(datas, items[i - 1]) && item_sender(
        datas,
        items[i],
    ) == item_sender(datas, items[i - 1]))
}

/// Every row shows its header exactly when `header_for` says so.
pub open spec fn headers_ok(datas: Seq<EventData>, items: Seq<Item>) -> bool {
    forall|i: int| 0 <= i < items.len() ==> #[trigger] items[i].show_header == header_for(datas, items, i)
}

/// The row with its header flag set to `v`, if it is an event.
pub open spec fn with_header(it: Item, v: bool) -> Item {
    if it.item_type is Event {
        Item { item_type: it.item_type, show_header: v }
    } else {
        it
    }
}

/// The day of the last event among `r`, or `prev` when there is none.
pub open spec fn running_day(datas: Seq<EventData>, r: Seq<Item>, prev: Option<i64>) -> Option<i64>
    decreases r.len(),
{
    if r.len() == 0 {
        prev
    } else {
        match item_day(datas, r.last()) {
            Some(d) => Some(d),
            None => running_day(datas, r.drop_last(), prev),
        }
    }
}

/// Whether the last row of `r` starts a new day.
pub open spec fn starts_day(datas: Seq<EventData>, r: Seq<Item>, prev: Option<i64>) -> bool {
    r.len() > 0 && item_day(datas, r.last()) is Some && item_day(datas, r.last()) != running_day(
        datas,
        r.drop_last(),
        prev,
    )
}

/// The divider put before an event row.
pub open spec fn divider_for(datas: Seq<EventData>, it: Item) -> Item {
    match it.item_type {
        ItemType::Event(h) => Item {
            item_type: ItemType::DayDivider {
                day: datas[h as int].day,
                timestamp: datas[h as int].timestamp,
            },
            show_header: false,
        },
        _ => it,
    }
}

/// The rows `r` with a day divider before each event whose day differs from
/// that of the event before it (from `prev` for the first one).
pub open spec fn with_dividers(datas: Seq<EventData>, r: Seq<Item>, prev: Option<i64>) -> Seq<Item>
    decreases r.len(),
{
    if r.len() == 0 {
        seq![]
    } else if starts_day(datas, r, prev) {
        with_dividers(datas, r.drop_last(), prev).push(divider_for(datas, r.last())).push(r.last())
    } else {
        with_dividers(datas, r.drop_last(), prev).push(r.last())
    }
}

/// The day of the last divider that `with_dividers` adds to `r`.
pub open spec fn last_divider_day(datas: Seq<EventData>, r: Seq<Item>, prev: Option<i64>) -> Option<
    i64,
>
    decreases r.len(),
{
    if r.len() == 0 {
        None
    } else if starts_day(datas, r, prev) {
        item_day(datas, r.last())
    } else {
        last_divider_day(datas, r.drop_last(), prev)
    }
}

/// The first row from `e` on that already shows the right header or cannot
/// hide it: the updating of headers after inserted rows stops there.
pub open spec fn header_stop(datas: Seq<EventData>, n: Seq<Item>, e: int) -> int
    decreases n.len() - e,
{
    if e < 0 || e >= n.len() {
        n.len() as int
    } else if !item_hideable(datas, n[e]) || header_for(datas, n, e) {
        e
    } else {
        header_stop(datas, n, e + 1)
    }
}

/// The rows `n` after rows were inserted at `s..e`: the headers of the new
/// rows, and of the rows after them up to where they stop changing, are set
/// to what `header_for` says.
pub open spec fn updated_headers(datas: Seq<EventData>, n: Seq<Item>, s: int, e: int) -> Seq<Item> {
    let k = header_stop(datas, n, e);
    Seq::new(
        n.len(),
        |j: int|
            if (s <= j < k) || (j == k && item_hideable(datas, n[j])) {
                with_header(n[j], header_for(datas, n, j))
            } else {
                n[j]
            },
    )
}

/// Only event rows ever show a header.
pub open spec fn plain_non_events(items: Seq<Item>) -> bool {
    forall|i: int| 0 <= i < items.len() && !(#[trigger] items[i].item_type is Event) ==> !items[i].show_header
}

fn hideable(datas: &Vec<EventData>, it: &Item) -> (b: bool)
    ensures
        b == item_hideable(datas@, *it),
{
    match it.item_type {
        ItemType::Event(h) => h < datas.len() && datas[h].can_hide_header(),
        _ => false,
    }
}

fn sender_of(datas: &Vec<EventData>, it: &Item) -> (s: Option<u64>)
    ensures
        s == item_sender(datas@, *it),
{
    match it.item_type {
        ItemType::Event(h) => if h < datas.len() {
            Some(datas[h].sender)
        } else {
            None
        },
        _ => None,
    }
}

fn day_of(datas: &Vec<EventData>, it: &Item) -> (d: Option<i64>)
    ensures
        d == item_day(datas@, *it),
{
    match it.item_type {
        ItemType::Event(h) => if h < datas.len() {
            Some(datas[h].day)
        } else {
            None
        },
        _ => None,
    }
}

fn same_sender(a: Option<u64>, b: Option<u64>) -> (r: bool)
    ensures
        r == (a == b),
{
    match (a, b) {
        (Some(x), Some(y)) => x == y,
        (None, None) => true,
        _ => false,
    }
}

fn same_day(a: Option<i64>, b: Option<i64>) -> (r: bool)
    ensures
        r == (a == b),
{
    match (a, b) {
        (Some(x), Some(y)) => x == y,
        (None, None) => true,
        _ => false,
    }
}

fn set_header(list: &mut Vec<Item>, i: usize, v: bool)
    requires
        i < old(list)@.len(),
    ensures
        final(list)@ == old(list)@.update(i as int, with_header(old(list)@[i as int], v)),
{
    let it = list[i];
    if let ItemType::Event(_) = it.item_type {
        list.set(i, Item { item_type: it.item_type, show_header: v });
    } else {
        assert(list@ == old(list)@.update(i as int, with_header(old(list)@[i as int], v)));
    }
}

/// Puts a day divider before each event of `range` that starts a new day,
/// `prev` being the day of the event before the range; returns the rows and
/// the day of the last divider added.
fn add_day_dividers(datas: &Vec<EventData>, range: &Vec<Item>, prev: Option<i64>) -> (res: (
    Vec<Item>,
    Option<i64>,
))
    ensures
        res.0@ == with_dividers(datas@, range@, prev),
        res.1 == last_divider_day(datas@, range@, prev),
{
    let mut out: Vec<Item> = Vec::new();
    let mut previous = prev;
    let mut last_divider: Option<i64> = None;
    let mut i: usize = 0;
    while i < range.len()
        invariant
            i <= range@.len(),
            out@ == with_dividers(datas@, range@.take(i as int), prev),
            previous == running_day(datas@, range@.take(i as int), prev),
            last_divider == last_divider_day(datas@, range@.take(i as int), prev),
        decreases range@.len() - i,
    {
        let ghost r = range@.take(i + 1);
        assert(r.drop_last() =~= range@.take(i as int));
        assert(r.last() == range@[i as int]);
        let current = range[i];
        let day = day_of(datas, &current);
        match day {
            Some(d) => {
                if !same_day(Some(d), previous) {
                    if let ItemType::Event(h) = current.item_type {
                        let divider = Item {
                            item_type: ItemType::DayDivider {
                                day: datas[h].day,
                                timestamp: datas[h].timestamp,
                            },
                            show_header: false,
                        };
                        out.push(divider);
                    }
                    last_divider = Some(d);
                    previous = Some(d);
                }
            },
            None => {},
        }
        out.push(current);
        i = i + 1;
    }
    assert(range@.take(range@.len() as int) =~= range@);
    (out, last_divider)
}

/// Sets the headers of the rows `s..e`, just inserted, and of the rows after
/// them whose header depends on the inserted ones.
fn update_headers(datas: &Vec<EventData>, list: &mut Vec<Item>, s: usize, e: usize)
    requires
        s <= e <= old(list)@.len(),
    ensures
        final(list)@ == updated_headers(datas@, old(list)@, s as int, e as int),
{
    let ghost n = list@;
    let mut prev: Option<u64> = if s > 0 && hideable(datas, &list[s - 1]) {
        sender_of(datas, &list[s - 1])
    } else {
        None
    };
    let mut i: usize = s;
    while i < e
        invariant
            s <= i <= e <= n.len(),
            list@.len() == n.len(),
            prev == previous_sender(datas@, n, i as int),
            forall|j: int|
                0 <= j < n.len() ==> #[trigger] list@[j] == if s <= j < i {
                    with_header(n[j], header_for(datas@, n, j))
                } else {
                    n[j]
                },
        decreases e - i,
    {
        let current = list[i];
        assert(current == n[i as int]);
        if !hideable(datas, &current) {
            set_header(list, i, false);
            prev = None;
        } else {
            let snd = sender_of(datas, &current);
            if !same_sender(snd, prev) {
                set_header(list, i, true);
                prev = snd;
            } else {
                set_header(list, i, false);
            }
        }
        i = i + 1;
    }
    let mut j: usize = e;
    while j < list.len()
        invariant_except_break
            s <= e <= j <= n.len(),
            list@.len() == n.len(),
            prev == previous_sender(datas@, n, j as int),
            header_stop(datas@, n, e as int) == header_stop(datas@, n, j as int),
            forall|x: int|
                0 <= x < n.len() ==> #[trigger] list@[x] == if s <= x < j {
                    with_header(n[x], header_for(datas@, n, x))
                } else {
                    n[x]
                },
        ensures
            list@ == updated_headers(datas@, n, s as int, e as int),
        decreases n.len() - j,
    {
        let next = list[j];
        assert(next == n[j as int]);
        if !hideable(datas, &next) {
            assert(list@ =~= updated_headers(datas@, n, s as int, e as int));
            break ;
        }
        let snd = sender_of(datas, &next);
        if !same_sender(snd, prev) {
            set_header(list, j, true);
            assert(list@ =~= updated_headers(datas@, n, s as int, e as int));
            break ;
        }
        assert(item_hideable(datas@, n[j as int]));
        assert(!header_for(datas@, n, j as int));
        assert(header_stop(datas@, n, j as int) == header_stop(datas@, n, j + 1));
        let ghost before = list@;
        set_header(list, j, false);
        assert forall|x: int| 0 <= x < n.len() implies #[trigger] list@[x] == if s <= x < j + 1 {
            with_header(n[x], header_for(datas@, n, x))
        } else {
            n[x]
        } by {
            if x != j {
                assert(list@[x] == before[x]);
            } else {
                assert(before[x] == n[x]);
                assert(list@[x] == with_header(n[x], false));
                assert(s <= x < j + 1);
            }
        }
        j = j + 1;
    }
    proof {
        if j >= n.len() {
            assert(list@ =~= updated_headers(datas@, n, s as int, e as int));
        }
    }
}

/// When every row outside the inserted rows `s..e` showed the right header
/// (and the row at `e`, if it cannot hide its header, shows none), updating
/// the headers makes every row show the right one.
pub proof fn lemma_updated_headers_ok(datas: Seq<EventData>, n: Seq<Item>, s: int, e: int)
    requires
        0 <= s <= e <= n.len(),
        plain_non_events(n),
        forall|j: int| 0 <= j < n.len() && (j < s || j > e) ==> #[trigger] n[j].show_header == header_for(datas, n, j),
        e < n.len() && !item_hideable(datas, n[e]) ==> !n[e].show_header,
    ensures
        headers_ok(datas, updated_headers(datas, n, s, e)),
        plain_non_events(updated_headers(datas, n, s, e)),
{
    let u = updated_headers(datas, n, s, e);
    let k = header_stop(datas, n, e);
    lemma_header_stop_bounds(datas, n, e);
    assert forall|j: int| 0 <= j < u.len() implies #[trigger] u[j].show_header == header_for(datas, u, j) by {
        assert(u[j].item_type == n[j].item_type);
        if j > 0 {
            assert(u[j - 1].item_type == n[j - 1].item_type);
        }
        assert(header_for(datas, u, j) == header_for(datas, n, j));
        if (s <= j < k) || (j == k && item_hideable(datas, n[j])) {
            if !(n[j].item_type is Event) {
                assert(!item_hideable(datas, n[j]));
            }
        } else if e <= j < k {
        } else if j == k && k < n.len() {
            if j == e {
            }
        } else {
            if e <= j && j < k {
            } else if j > k {
                lemma_header_stop_bounds(datas, n, e);
            }
        }
    }
}

proof fn lemma_header_stop_bounds(datas: Seq<EventData>, n: Seq<Item>, e: int)
    requires
        0 <= e <= n.len(),
    ensures
        e <= header_stop(datas, n, e) <= n.len(),
        forall|j: int|
            e <= j < header_stop(datas, n, e) ==> item_hideable(datas, #[trigger] n[j]) && !header_for(
                datas,
                n,
                j,
            ),
        header_stop(datas, n, e) < n.len() ==> (!item_hideable(datas, n[header_stop(datas, n, e)])
            || header_for(datas, n, header_stop(datas, n, e))),
    decreases n.len() - e,
{
    if e < n.len() && !(!item_hideable(datas, n[e]) || header_for(datas, n, e)) {
        assert(header_stop(datas, n, e) == header_stop(datas, n, e + 1));
        lemma_header_stop_bounds(datas, n, e + 1);
        assert forall|j: int|
            e <= j < header_stop(datas, n, e) implies item_hideable(datas, n[j]) && !header_for(
                datas,
                n,
                j,
            ) by {
            if j > e {
                assert(e + 1 <= j < header_stop(datas, n, e + 1));
                assert(item_hideable(datas, n[j]));
            }
        }
    }
}

/// The events that `ids` name and that `map` knows, in order.
pub open spec fn resolve_ids(ids: Seq<u64>, map: Map<u64, usize>) -> Seq<usize>
    decreases ids.len(),
{
    if ids.len() == 0 {
        seq![]
    } else if map.contains_key(ids.last()) {
        resolve_ids(ids.drop_last(), map).push(map[ids.last()])
    } else {
        resolve_ids(ids.drop_last(), map)
    }
}

/// The event relations after the event `h`, with data `d`, became known:
/// it is added to the events related to the event it relates to, or, when
/// that event is unknown, it waits under that event's id; and the events that
/// waited for `d`'s id are added to its related events.
pub open spec fn link_one(
    rels: Seq<Seq<usize>>,
    waiting: Map<u64, Seq<u64>>,
    map: Map<u64, usize>,
    h: usize,
    d: EventData,
) -> (Seq<Seq<usize>>, Map<u64, Seq<u64>>) {
    let (rels1, waiting1) = match related_event(d.event) {
        Some(rid) => if map.contains_key(rid) {
            (rels.update(map[rid] as int, rels[map[rid] as int].push(h)), waiting)
        } else {
            (
                rels,
                waiting.insert(
                    rid,
                    (if waiting.contains_key(rid) {
                        waiting[rid]
                    } else {
                        seq![]
                    }).push(d.event_id),
                ),
            )
        },
        None => (rels, waiting),
    };
    if waiting1.contains_key(d.event_id) {
        (
            rels1.update(h as int, rels1[h as int] + resolve_ids(waiting1[d.event_id], map)),
            waiting1.remove(d.event_id),
        )
    } else {
        (rels1, waiting1)
    }
}

/// The relations after the event rows of `r` became known, in order.
pub open spec fn link_items(
    rels: Seq<Seq<usize>>,
    waiting: Map<u64, Seq<u64>>,
    map: Map<u64, usize>,
    datas: Seq<EventData>,
    r: Seq<Item>,
) -> (Seq<Seq<usize>>, Map<u64, Seq<u64>>)
    decreases r.len(),
{
    if r.len() == 0 {
        (rels, waiting)
    } else {
        let (rels1, waiting1) = link_items(rels, waiting, map, datas, r.drop_last());
        match r.last().item_type {
            ItemType::Event(h) => link_one(rels1, waiting1, map, h, datas[h as int]),
            _ => (rels1, waiting1),
        }
    }
}

/// The day of the row before `position`, which decides whether the first
/// inserted event starts a day.
pub open spec fn day_before(datas: Seq<EventData>, items: Seq<Item>, position: int) -> Option<i64> {
    if position > 0 {
        item_day(datas, items[position - 1])
    } else {
        None
    }
}

/// Whether the divider right after the inserted rows goes away because the
/// inserted rows end with a divider for the same day.
pub open spec fn drops_next_divider(
    datas: Seq<EventData>,
    items: Seq<Item>,
    position: int,
    r: Seq<Item>,
) -> bool {
    let ld = last_divider_day(datas, r, day_before(datas, items, position));
    position < items.len() && (items[position].item_type matches ItemType::DayDivider {
        day,
        ..
    } && ld == Some(day))
}

/// The rows after inserting the rows `r` at `position`: with their day
/// dividers, without a now redundant divider after them, and with updated
/// headers.
pub open spec fn rows_after_insert(
    datas: Seq<EventData>,
    items: Seq<Item>,
    position: int,
    r: Seq<Item>,
) -> Seq<Item> {
    let rd = with_dividers(datas, r, day_before(datas, items, position));
    let suffix = items.subrange(position, items.len() as int);
    let n = items.subrange(0, position) + rd + (if drops_next_divider(datas, items, position, r) {
        suffix.drop_first()
    } else {
        suffix
    });
    updated_headers(datas, n, position, position + rd.len())
}

/// The state that a batch of events passes through: the events, their
/// relations, the place of each id, the waiting relations, the pending
/// transactions and the new rows to show.
pub type Stage = (
    Seq<EventData>,
    Seq<Seq<usize>>,
    Map<u64, usize>,
    Map<u64, Seq<u64>>,
    Map<u64, u64>,
    Seq<Item>,
);

/// A pending event after the server sent it back as `new`: it becomes `new`,
/// unless `new` could not be deserialized while the pending one could, in
/// which case it keeps its event and only takes the transaction id of `new`.
pub open spec fn merged(old: EventData, new: EventData) -> EventData {
    if new.event is Some || old.event is None {
        new
    } else {
        EventData {
            event_id: old.event_id,
            sender: old.sender,
            timestamp: old.timestamp,
            day: old.day,
            transaction_id: new.transaction_id,
            event: old.event,
        }
    }
}

/// The row of the event at place `h`, without header.
pub open spec fn event_row(h: int) -> Item {
    Item { item_type: ItemType::Event(h as usize), show_header: false }
}

/// The state after a newly known event `d`: it gets the next place and its
/// id, and is either linked at once, when hidden, or made a new row by `add`.
pub open spec fn take_new_event(st: Stage, d: EventData, at_front: bool) -> Stage {
    let h = st.0.len() as int;
    let datas = st.0.push(d);
    let rels = st.1.push(seq![]);
    let map = st.2.insert(d.event_id, h as usize);
    if is_hidden(d.event) {
        let (rels2, waiting2) = link_one(rels, st.3, map, h as usize, d);
        (datas, rels2, map, waiting2, st.4, st.5)
    } else if at_front {
        (datas, rels, map, st.3, st.4, seq![event_row(h)] + st.5)
    } else {
        (datas, rels, map, st.3, st.4, st.5.push(event_row(h)))
    }
}

/// The state after the event `d` arrived at the end of the timeline: if it
/// is the echo of a pending event, that event takes it over under its new
/// id; otherwise it is a new event.
pub open spec fn append_step(st: Stage, d: EventData) -> Stage {
    if d.transaction_id is Some && st.4.contains_key(d.transaction_id->0) {
        let txn = d.transaction_id->0;
        let pid = st.4[txn];
        let pending = st.4.remove(txn);
        if st.2.contains_key(pid) {
            let h = st.2[pid];
            (
                st.0.update(h as int, merged(st.0[h as int], d)),
                st.1,
                st.2.remove(pid).insert(d.event_id, h),
                st.3,
                pending,
                st.5,
            )
        } else {
            (st.0, st.1, st.2, st.3, pending, st.5)
        }
    } else {
        take_new_event(st, d, false)
    }
}

/// The state after the events `batch` arrived at the end, in order.
pub open spec fn append_fold(st: Stage, batch: Seq<EventData>) -> Stage
    decreases batch.len(),
{
    if batch.len() == 0 {
        st
    } else {
        append_step(append_fold(st, batch.drop_last()), batch.last())
    }
}

/// The state after the older events `batch` arrived at the front, each
/// before the ones before it.
pub open spec fn prepend_fold(st: Stage, batch: Seq<EventData>) -> Stage
    decreases batch.len(),
{
    if batch.len() == 0 {
        st
    } else {
        take_new_event(prepend_fold(st, batch.drop_last()), batch.last(), true)
    }
}

fn merge_event(current: &mut EventData, new: EventData)
    ensures
        *final(current) == merged(*old(current), new),
{
    if new.event.is_some() || current.event.is_none() {
        *current = new;
    } else {
        current.transaction_id = new.transaction_id;
    }
}

/// A change of the rows that list views are told of: at `position`,
/// `removed` rows went away and `added` rows came.
#[derive(Clone, Copy, Debug, PartialEq, Eq, Structural)]
pub struct ListChange {
    pub position: usize,
    pub removed: usize,
    pub added: usize,
}

/// List of all loaded Events in a room.
///
/// There is no strict message ordering enforced by the Timeline; events
/// will be appended/prepended to existing events in the order they are
/// received by the server.
///
/// This struct additionally keeps track of pending events that have yet to
/// get an event ID assigned from the server.
pub struct Timeline {
    /// Every event the timeline knows, shown or hidden.
    events: Vec<EventData>,
    /// For each event, the events that relate to it.
    relations: Vec<Vec<usize>>,
    /// All rows shown in the room history.
    list: Vec<Item>,
    /// Links an event id to the event.
    event_map: HashMap<u64, usize>,
    /// Events that relate to events that aren't known yet, by the id of the
    /// event they relate to.
    relates_to_events: HashMap<u64, Vec<u64>>,
    /// Maps the transaction id of a pending event to its temporary event id.
    pending_events: HashMap<u64, u64>,
    loading: bool,
    complete: bool,
    oldest_event: Option<u64>,
}

impl Timeline {
    /// The rows of the room history.
    pub closed spec fn items(&self) -> Seq<Item> {
        self.list@
    }

    /// The events the timeline knows, by place.
    pub closed spec fn datas(&self) -> Seq<EventData> {
        self.events@
    }

    /// For each event, the events that relate to it.
    pub closed spec fn rels(&self) -> Seq<Seq<usize>> {
        self.relations@.map_values(|v: Vec<usize>| v@)
    }

    /// The place of each known event id.
    pub closed spec fn ids(&self) -> Map<u64, usize> {
        self.event_map@
    }

    /// The ids of events waiting for the event they relate to, by its id.
    pub closed spec fn waiting(&self) -> Map<u64, Seq<u64>> {
        self.relates_to_events@.map_values(|v: Vec<u64>| v@)
    }

    /// The temporary event id of each pending transaction.
    pub closed spec fn pending(&self) -> Map<u64, u64> {
        self.pending_events@
    }

    pub closed spec fn is_loading(&self) -> bool {
        self.loading
    }

    pub closed spec fn is_complete_spec(&self) -> bool {
        self.complete
    }

    pub closed spec fn oldest(&self) -> Option<u64> {
        self.oldest_event
    }

    /// Every row shows its header exactly when `header_for` says so.
    pub open spec fn headers_consistent(&self) -> bool {
        headers_ok(self.datas(), self.items())
    }

    /// The timeline's invariant: every place it names is an event it holds,
    /// only event rows show headers, and while older events load the spinner
    /// is the first row.
    pub closed spec fn wf(&self) -> bool {
        &&& self.relations@.len() == self.events@.len()
        &&& forall|k: u64| #[trigger]
            self.event_map@.contains_key(k) ==> self.event_map@[k] < self.events@.len()
        &&& forall|i: int|
            0 <= i < self.list@.len() ==> (#[trigger] self.list@[i].item_type matches ItemType::Event(
                h,
            ) ==> h < self.events@.len())
        &&& plain_non_events(self.list@)
        &&& self.loading ==> (self.list@.len() > 0 && self.list@[0].item_type
            == ItemType::LoadingSpinner)
    }

    /// Records that the event `h` is known: links it to the event it relates
    /// to and the waiting events to it.
    fn link_relations(&mut self, h: usize)
        requires
            old(self).wf(),
            h < old(self).events@.len(),
        ensures
            final(self).wf(),
            (final(self).rels(), final(self).waiting()) == link_one(
                old(self).rels(),
                old(self).waiting(),
                old(self).ids(),
                h,
                old(self).datas()[h as int],
            ),
            final(self).events@ == old(self).events@,
            final(self).list@ == old(self).list@,
            final(self).event_map@ == old(self).event_map@,
            final(self).pending_events@ == old(self).pending_events@,
            final(self).loading == old(self).loading,
            final(self).complete == old(self).complete,
            final(self).oldest_event == old(self).oldest_event,
    {
        let ghost rels0 = self.rels();
        let ghost waiting0 = self.waiting();
        let event_id = self.events[h].event_id;
        let related = self.events[h].related_matrix_event();
        if let Some(rid) = related {
            match self.event_map.get(&rid) {
                Some(t) => {
                    let t = *t;
                    self.relations[t].push(h);
                    assert(self.rels() =~= rels0.update(t as int, rels0[t as int].push(h)));
                },
                None => {
                    let mut ids = match self.relates_to_events.remove(&rid) {
                        Some(v) => v,
                        None => Vec::new(),
                    };
                    ids.push(event_id);
                    self.relates_to_events.insert(rid, ids);
                    assert(self.waiting() =~= waiting0.insert(
                        rid,
                        (if waiting0.contains_key(rid) {
                            waiting0[rid]
                        } else {
                            seq![]
                        }).push(event_id),
                    ));
                },
            }
        }
        let ghost rels1 = self.rels();
        let ghost waiting1 = self.waiting();
        if let Some(ids) = self.relates_to_events.remove(&event_id) {
            assert(self.waiting() =~= waiting1.remove(event_id));
            let mut found: Vec<usize> = Vec::new();
            let mut i: usize = 0;
            while i < ids.len()
                invariant
                    i <= ids@.len(),
                    found@ == resolve_ids(ids@.take(i as int), self.event_map@),
                    forall|k: u64| #[trigger]
                        self.event_map@.contains_key(k) ==> self.event_map@[k]
                            < self.events@.len(),
                decreases ids@.len() - i,
            {
                assert(ids@.take(i + 1).drop_last() =~= ids@.take(i as int));
                if let Some(t) = self.event_map.get(&ids[i]) {
                    found.push(*t);
                }
                i = i + 1;
            }
            assert(ids@.take(ids@.len() as int) =~= ids@);
            let ghost before = self.relations@;
            self.relations[h].append(&mut found);
            assert(self.rels() =~= rels1.update(h as int, rels1[h as int] + resolve_ids(ids@, self.event_map@)));
        }
    }

    /// Inserts the event rows `r` at `position`, with their day dividers,
    /// removes a divider after them that repeats their last day, updates the
    /// headers and links the inserted events to their relations.
    fn insert_items(&mut self, position: usize, r: Vec<Item>) -> (change: ListChange)
        requires
            old(self).wf(),
            position <= old(self).list@.len(),
            old(self).loading ==> position > 0,
            forall|i: int|
                0 <= i < r@.len() ==> (#[trigger] r@[i].item_type matches ItemType::Event(h) && h
                    < old(self).events@.len()),
        ensures
            final(self).wf(),
            final(self).list@ == rows_after_insert(old(self).events@, old(self).list@, position as int, r@),
            (final(self).rels(), final(self).waiting()) == link_items(
                old(self).rels(),
                old(self).waiting(),
                old(self).event_map@,
                old(self).events@,
                with_dividers(old(self).events@, r@, day_before(old(self).events@, old(self).list@, position as int)),
            ),
            final(self).events@ == old(self).events@,
            final(self).event_map@ == old(self).event_map@,
            final(self).pending_events@ == old(self).pending_events@,
            final(self).loading == old(self).loading,
            final(self).complete == old(self).complete,
            final(self).oldest_event == old(self).oldest_event,
            change.position == position,
            change.removed == (if drops_next_divider(old(self).events@, old(self).list@, position as int, r@) { 1usize } else { 0usize }),
            change.added == with_dividers(old(self).events@, r@, day_before(old(self).events@, old(self).list@, position as int)).len(),
    {
        let ghost items0 = self.list@;
        let ghost datas = self.events@;
        let prev = if position > 0 {
            day_of(&self.events, &self.list[position - 1])
        } else {
            None
        };
        let (rd, last_div) = add_day_dividers(&self.events, &r, prev);
        proof {
            lemma_dividers_shape(datas, r@, prev);
        }
        let (n, removed) = splice_rows(&self.list, position, &rd, last_div);
        let ghost nn = n@;
        proof {
            lemma_spliced_wf(datas, items0, position as int, rd@, nn, removed == 1, self.loading);
        }
        self.list = n;
        let total = self.list.len();
        assert(position + rd@.len() <= total);
        let e = position + rd.len();
        update_headers(&self.events, &mut self.list, position, e);
        proof {
            lemma_headers_keep_wf(datas, nn, self.list@, position as int, e as int, self.loading);
        }
        self.link_rows(&rd);
        ListChange { position, removed, added: rd.len() }
    }

    /// Links the events among the rows `rd`, in order.
    fn link_rows(&mut self, rd: &Vec<Item>)
        requires
            old(self).wf(),
            forall|x: int| 0 <= x < rd@.len() ==> (#[trigger] rd@[x].item_type matches ItemType::Event(h) ==> h < old(self).events@.len()),
        ensures
            final(self).wf(),
            (final(self).rels(), final(self).waiting()) == link_items(old(self).rels(), old(self).waiting(), old(self).event_map@, old(self).events@, rd@),
            final(self).events@ == old(self).events@,
            final(self).list@ == old(self).list@,
            final(self).event_map@ == old(self).event_map@,
            final(self).pending_events@ == old(self).pending_events@,
            final(self).loading == old(self).loading,
            final(self).complete == old(self).complete,
            final(self).oldest_event == old(self).oldest_event,
    {
        let ghost rels0 = self.rels();
        let ghost waiting0 = self.waiting();
        let mut m: usize = 0;
        while m < rd.len()
            invariant
                m <= rd@.len(),
                self.wf(),
                self.events@ == old(self).events@,
                self.event_map@ == old(self).event_map@,
                self.list@ == old(self).list@,
                self.pending_events@ == old(self).pending_events@,
                self.loading == old(self).loading,
                self.complete == old(self).complete,
                self.oldest_event == old(self).oldest_event,
                rels0 == old(self).rels(),
                waiting0 == old(self).waiting(),
                (self.rels(), self.waiting()) == link_items(rels0, waiting0, self.event_map@, self.events@, rd@.take(m as int)),
                forall|x: int| 0 <= x < rd@.len() ==> (#[trigger] rd@[x].item_type matches ItemType::Event(h) ==> h < self.events@.len()),
            decreases rd@.len() - m,
        {
            assert(rd@.take(m + 1).drop_last() =~= rd@.take(m as int));
            assert(rd@.take(m + 1).last() == rd@[m as int]);
            if let ItemType::Event(h) = rd[m].item_type {
                self.link_relations(h);
            }
            m = m + 1;
        }
        assert(rd@.take(rd@.len() as int) =~= rd@);
    }
}

impl Timeline {
    /// The state of the timeline's events, with `rows` as the new rows.
    pub open spec fn stage(&self, rows: Seq<Item>) -> Stage {
        (self.datas(), self.rels(), self.ids(), self.waiting(), self.pending(), rows)
    }

    /// Whether every row of `rows` is an event row the timeline holds.
    pub closed spec fn rows_valid(&self, rows: Seq<Item>) -> bool {
        forall|x: int|
            0 <= x < rows.len() ==> (#[trigger] rows[x].item_type matches ItemType::Event(h) && h
                < self.events@.len())
    }

    /// An empty timeline, not loading and not complete.
    pub fn new() -> (t: Timeline)
        ensures
            t.wf(),
            t.items().len() == 0,
            t.datas().len() == 0,
            t.ids().is_empty(),
            t.waiting().is_empty(),
            t.pending().is_empty(),
            !t.is_loading(),
            !t.is_complete_spec(),
            t.oldest() is None,
    {
        let t = Timeline {
            events: Vec::new(),
            relations: Vec::new(),
            list: Vec::new(),
            event_map: HashMap::new(),
            relates_to_events: HashMap::new(),
            pending_events: HashMap::new(),
            loading: false,
            complete: false,
            oldest_event: None,
        };
        assert(t.waiting() =~= Map::empty());
        t
    }

    /// Takes a newly known event: gives it the next place and records its id,
    /// links it at once when it is hidden and adds its row to `rows`
    /// otherwise.
    fn take_new(&mut self, event: EventData, at_front: bool, rows: &mut Vec<Item>)
        requires
            old(self).wf(),
            old(self).rows_valid(old(rows)@),
        ensures
            final(self).wf(),
            final(self).rows_valid(final(rows)@),
            final(self).stage(final(rows)@) == take_new_event(old(self).stage(old(rows)@), event, at_front),
            final(self).list@ == old(self).list@,
            final(self).loading == old(self).loading,
            final(self).complete == old(self).complete,
            final(self).oldest_event == old(self).oldest_event,
    {
        let ghost st = self.stage(rows@);
        let h = self.events.len();
        let eid = event.event_id;
        let hidden = event.is_hidden_event();
        self.events.push(event);
        self.relations.push(Vec::new());
        self.event_map.insert(eid, h);
        assert(self.rels() =~= st.1.push(seq![]));
        if hidden {
            self.link_relations(h);
        } else {
            let row = Item { item_type: ItemType::Event(h), show_header: false };
            if at_front {
                rows.insert(0, row);
                assert(rows@ =~= seq![event_row(h as int)] + st.5);
            } else {
                rows.push(row);
            }
        }
    }

    /// Append the new events.
    pub fn append(&mut self, batch: Vec<EventData>) -> (change: Option<ListChange>)
        requires
            old(self).wf(),
        ensures
            final(self).wf(),
            batch@.len() == 0 ==> change is None && *final(self) == *old(self),
            batch@.len() > 0 ==> {
                let st = append_fold(old(self).stage(seq![]), batch@);
                let position = old(self).items().len() as int;
                let rd = with_dividers(st.0, st.5, day_before(st.0, old(self).items(), position));
                &&& final(self).datas() == st.0
                &&& final(self).ids() == st.2
                &&& final(self).pending() == st.4
                &&& final(self).items() == rows_after_insert(st.0, old(self).items(), position, st.5)
                &&& (final(self).rels(), final(self).waiting()) == link_items(st.1, st.3, st.2, st.0, rd)
                &&& final(self).oldest() == (if position == 0 { Some(batch@[0].event_id) } else { old(self).oldest() })
                &&& final(self).stage(seq![]) == after_append(old(self).stage(seq![]), old(self).items(), batch@)
                &&& change == Some(ListChange { position: position as usize, removed: 0, added: rd.len() as usize })
            },
            final(self).is_loading() == old(self).is_loading(),
            final(self).is_complete_spec() == old(self).is_complete_spec(),
            old(self).headers_consistent() && echoes_keep_rows(old(self).stage(seq![]), batch@)
                ==> final(self).headers_consistent(),
            days_divided(old(self).datas(), old(self).items()) && echoes_keep_days(old(self).stage(seq![]), batch@)
                ==> days_divided(final(self).datas(), final(self).items()),
    {
        if batch.len() == 0 {
            return None;
        }
        let ghost orig = batch@;
        let ghost init = self.stage(seq![]);
        let index = self.list.len();
        if index == 0 {
            self.oldest_event = Some(batch[0].event_id);
        }
        let mut batch = batch;
        let mut rows: Vec<Item> = Vec::new();
        let mut i: usize = 0;
        let n = batch.len();
        assert(orig.skip(0) =~= orig);
        while i < n
            invariant
                n == orig.len(),
                i <= n,
                batch@ == orig.skip(i as int),
                self.wf(),
                self.rows_valid(rows@),
                self.stage(rows@) == append_fold(init, orig.take(i as int)),
                self.list@ == old(self).list@,
                self.loading == old(self).loading,
                self.complete == old(self).complete,
                self.oldest_event == (if index == 0 { Some(orig[0].event_id) } else { old(self).oldest_event }),
            decreases n - i,
        {
            assert(orig.take(i + 1).drop_last() =~= orig.take(i as int));
            assert(orig.take(i + 1).last() == orig[i as int]);
            let event = batch.remove(0);
            assert(batch@ =~= orig.skip(i + 1));
            let ghost st = self.stage(rows@);
            let pending_id = match event.transaction_id {
                Some(t) => self.pending_events.remove(&t),
                None => None,
            };
            match pending_id {
                Some(pid) => {
                    if let Some(h) = self.event_map.remove(&pid) {
                        let eid = event.event_id;
                        merge_event(&mut self.events[h], event);
                        self.event_map.insert(eid, h);
                    }
                    assert(self.stage(rows@) =~= append_step(st, orig[i as int]));
                },
                None => {
                    self.take_new(event, false, &mut rows);
                },
            }
            i = i + 1;
        }
        assert(orig.take(n as int) =~= orig);
        proof {
            if old(self).headers_consistent() && echoes_keep_rows(init, orig) {
                lemma_append_fold_keeps_rows(init, orig, old(self).list@);
                lemma_insert_keeps_headers(self.events@, old(self).list@, index as int, rows@);
            }
            if days_divided(old(self).datas(), old(self).items()) && echoes_keep_days(init, orig) {
                lemma_append_keeps_days(init, orig, old(self).list@);
            }
        }
        let change = self.insert_items(index, rows);
        Some(change)
    }
}

/// A request for the events before the oldest loaded one.
#[derive(Clone, Copy, Debug, PartialEq, Eq, Structural)]
pub struct PreviousEventsRequest {
    /// The oldest loaded event, from which the request goes back; the
    /// answer then starts with it again.
    pub from: Option<u64>,
}

/// The answer to a request for previous events.
#[derive(Debug)]
pub enum PreviousEvents {
    /// The events, newest first.
    Loaded(Vec<EventData>),
    /// The event the request started from was not found.
    StartNotFound,
    /// The request failed.
    Failed,
}

/// The events of an answer that are new: the first one is the event the
/// request started from, when it started from one.
pub open spec fn page_events(request: PreviousEventsRequest, events: Seq<EventData>) -> Seq<EventData> {
    if request.from is Some && events.len() > 0 {
        events.drop_first()
    } else {
        events
    }
}

/// Whether one of `events` is the creation event of the room.
pub open spec fn has_room_create(events: Seq<EventData>) -> bool {
    exists|i: int| 0 <= i < events.len() && crate::event::is_room_create(#[trigger] events[i].event)
}

impl Timeline {
    /// Append an event that wasn't yet fully sent and received via a sync.
    pub fn append_pending(&mut self, txn_id: u64, event: EventData) -> (change: Option<ListChange>)
        requires
            old(self).wf(),
        ensures
            final(self).wf(),
            ({
                let st = take_new_event(
                    (old(self).datas(), old(self).rels(), old(self).ids(), old(self).waiting(), old(self).pending().insert(txn_id, event.event_id), seq![]),
                    event,
                    false,
                );
                let position = old(self).items().len() as int;
                let rd = with_dividers(st.0, st.5, day_before(st.0, old(self).items(), position));
                &&& final(self).datas() == st.0
                &&& final(self).ids() == st.2
                &&& final(self).pending() == st.4
                &&& final(self).items() == rows_after_insert(st.0, old(self).items(), position, st.5)
                &&& (final(self).rels(), final(self).waiting()) == link_items(st.1, st.3, st.2, st.0, rd)
                &&& change == (if st.5.len() == 0 { None } else { Some(ListChange { position: position as usize, removed: 0, added: rd.len() as usize }) })
            }),
            final(self).oldest() == old(self).oldest(),
            final(self).is_loading() == old(self).is_loading(),
            final(self).is_complete_spec() == old(self).is_complete_spec(),
            old(self).headers_consistent() ==> final(self).headers_consistent(),
    {
        let index = self.list.len();
        self.pending_events.insert(txn_id, event.event_id);
        let ghost st0 = self.stage(seq![]);
        let mut rows: Vec<Item> = Vec::new();
        self.take_new(event, false, &mut rows);
        proof {
            if old(self).headers_consistent() {
                lemma_take_new_keeps_rows(st0, event, false, old(self).list@);
                lemma_insert_keeps_headers(self.events@, old(self).list@, index as int, rows@);
                if rows@.len() == 0 {
                    lemma_insert_nothing(self.events@, self.list@, index as int);
                    lemma_updated_headers_nothing(self.events@, self.list@, index as int);
                }
            }
        }
        if rows.len() == 0 {
            proof {
                assert(self.items() == rows_after_insert(self.events@, old(self).items(), index as int, rows@)) by {
                    lemma_insert_nothing(self.events@, self.list@, index as int);
                }
                assert(with_dividers(self.events@, rows@, day_before(self.events@, old(self).items(), index as int)) =~= seq![]);
            }
            None
        } else {
            Some(self.insert_items(index, rows))
        }
    }

    /// Prepends a batch of older events, newest first.
    pub fn prepend(&mut self, batch: Vec<EventData>) -> (change: ListChange)
        requires
            old(self).wf(),
            !old(self).is_loading(),
        ensures
            final(self).wf(),
            ({
                let st = prepend_fold(old(self).stage(seq![]), batch@);
                let rd = with_dividers(st.0, st.5, None);
                &&& final(self).datas() == st.0
                &&& final(self).ids() == st.2
                &&& final(self).pending() == old(self).pending()
                &&& final(self).items() == rows_after_insert(st.0, old(self).items(), 0, st.5)
                &&& (final(self).rels(), final(self).waiting()) == link_items(st.1, st.3, st.2, st.0, rd)
                &&& change == ListChange {
                    position: 0,
                    removed: if drops_next_divider(st.0, old(self).items(), 0, st.5) { 1 } else { 0 },
                    added: rd.len() as usize,
                }
            }),
            final(self).oldest() == (if batch@.len() == 0 { None } else { Some(batch@.last().event_id) }),
            !final(self).is_loading(),
            final(self).is_complete_spec() == old(self).is_complete_spec(),
            old(self).headers_consistent() ==> final(self).headers_consistent(),
            days_divided(old(self).datas(), old(self).items()) ==> days_divided(final(self).datas(), final(self).items()),
    {
        let ghost orig = batch@;
        let ghost init = self.stage(seq![]);
        self.oldest_event = if batch.len() == 0 {
            None
        } else {
            Some(batch[batch.len() - 1].event_id)
        };
        let mut batch = batch;
        let mut rows: Vec<Item> = Vec::new();
        let mut i: usize = 0;
        let n = batch.len();
        assert(orig.skip(0) =~= orig);
        while i < n
            invariant
                n == orig.len(),
                i <= n,
                batch@ == orig.skip(i as int),
                self.wf(),
                !self.loading,
                self.rows_valid(rows@),
                self.stage(rows@) == prepend_fold(init, orig.take(i as int)),
                self.pending_events@ == old(self).pending_events@,
                self.list@ == old(self).list@,
                self.complete == old(self).complete,
                self.oldest_event == (if n == 0 { None } else { Some(orig.last().event_id) }),
            decreases n - i,
        {
            assert(orig.take(i + 1).drop_last() =~= orig.take(i as int));
            assert(orig.take(i + 1).last() == orig[i as int]);
            let event = batch.remove(0);
            assert(batch@ =~= orig.skip(i + 1));
            self.take_new(event, true, &mut rows);
            i = i + 1;
        }
        assert(orig.take(n as int) =~= orig);
        proof {
            if old(self).headers_consistent() {
                lemma_prepend_fold_keeps_rows(init, orig, old(self).list@);
                lemma_insert_keeps_headers(self.events@, old(self).list@, 0, rows@);
            }
            if days_divided(old(self).datas(), old(self).items()) {
                lemma_prepend_keeps_days(init, orig, old(self).list@);
            }
        }
        self.insert_items(0, rows)
    }

    /// Returns the event with the given id.
    pub fn event_by_id(&self, event_id: u64) -> (h: Option<usize>)
        ensures
            match h {
                Some(h) => self.ids().contains_key(event_id) && self.ids()[event_id] == h,
                None => !self.ids().contains_key(event_id),
            },
    {
        match self.event_map.get(&event_id) {
            Some(h) => Some(*h),
            None => None,
        }
    }

    /// The event at place `h`.
    pub fn event(&self, h: usize) -> (d: &EventData)
        requires
            h < self.datas().len(),
        ensures
            *d == self.datas()[h as int],
    {
        &self.events[h]
    }

    /// The events that relate to the event at place `h`.
    pub fn relates_to(&self, h: usize) -> (r: &Vec<usize>)
        requires
            self.wf(),
            h < self.datas().len(),
        ensures
            r@ == self.rels()[h as int],
    {
        &self.relations[h]
    }

    /// The number of rows.
    pub fn n_items(&self) -> (n: usize)
        ensures
            n == self.items().len(),
    {
        self.list.len()
    }

    /// The row at `position`, if there is one.
    pub fn item(&self, position: usize) -> (it: Option<Item>)
        ensures
            position < self.items().len() ==> it == Some(self.items()[position as int]),
            position >= self.items().len() ==> it is None,
    {
        if position < self.list.len() {
            Some(self.list[position])
        } else {
            None
        }
    }

    /// Whether older events are being loaded.
    pub fn loading(&self) -> (b: bool)
        ensures
            b == self.is_loading(),
    {
        self.loading
    }

    /// Whether the full timeline is loaded.
    pub fn is_complete(&self) -> (b: bool)
        ensures
            b == self.is_complete_spec(),
    {
        self.complete
    }

    /// The oldest event loaded, from which older events are requested.
    pub fn oldest_event(&self) -> (id: Option<u64>)
        ensures
            id == self.oldest(),
    {
        self.oldest_event
    }

    /// Whether the timeline shows nothing, or only the loading spinner.
    pub fn is_empty(&self) -> (b: bool)
        ensures
            b == (self.items().len() == 0 || (self.items().len() == 1 && self.is_loading())),
    {
        self.list.len() == 0 || (self.list.len() == 1 && self.loading)
    }

    /// Starts loading older events, unless loading is under way or the
    /// timeline is complete: puts the loading spinner in front and returns
    /// the request to make.
    pub fn load_previous_events(&mut self) -> (request: Option<PreviousEventsRequest>)
        requires
            old(self).wf(),
        ensures
            final(self).wf(),
            old(self).is_loading() || old(self).is_complete_spec() ==> request is None && *final(self) == *old(self),
            !(old(self).is_loading() || old(self).is_complete_spec()) ==> {
                &&& request == Some(PreviousEventsRequest { from: old(self).oldest() })
                &&& final(self).is_loading()
                &&& final(self).items() == seq![Item { item_type: ItemType::LoadingSpinner, show_header: false }] + old(self).items()
                &&& final(self).datas() == old(self).datas()
                &&& final(self).rels() == old(self).rels()
                &&& final(self).ids() == old(self).ids()
                &&& final(self).waiting() == old(self).waiting()
                &&& final(self).pending() == old(self).pending()
                &&& final(self).oldest() == old(self).oldest()
                &&& !final(self).is_complete_spec()
            },
            old(self).headers_consistent() ==> final(self).headers_consistent(),
    {
        if self.loading || self.complete {
            return None;
        }
        self.loading = true;
        let ghost items0 = self.list@;
        self.list.insert(0, Item { item_type: ItemType::LoadingSpinner, show_header: false });
        assert(self.list@ =~= seq![Item { item_type: ItemType::LoadingSpinner, show_header: false }] + items0);
        assert forall|i: int| 0 <= i < self.list@.len() implies (#[trigger] self.list@[i].item_type matches ItemType::Event(h) ==> h < self.events@.len()) && (!(self.list@[i].item_type is Event) ==> !self.list@[i].show_header) by {
            if i > 0 {
                assert(self.list@[i] == items0[i - 1]);
            }
        }
        proof {
            if old(self).headers_consistent() {
                assert forall|i: int| 0 <= i < self.list@.len() implies #[trigger] self.list@[i].show_header == header_for(self.events@, self.list@, i) by {
                    if i > 0 {
                        assert(self.list@[i] == items0[i - 1]);
                        assert(items0[i - 1].show_header == header_for(self.events@, items0, i - 1));
                        if i > 1 {
                            assert(self.list@[i - 1] == items0[i - 2]);
                        }
                    }
                }
            }
        }
        Some(PreviousEventsRequest { from: self.oldest_event })
    }

    /// Takes the answer to a request for previous events: removes the
    /// loading spinner and, when events came, prepends them, leaving out the
    /// event the request started from, and marks the timeline complete when
    /// they reach the creation of the room.
    pub fn handle_previous_events(&mut self, request: PreviousEventsRequest, response: PreviousEvents) -> (change: Option<ListChange>)
        requires
            old(self).wf(),
            old(self).is_loading(),
        ensures
            final(self).wf(),
            !final(self).is_loading(),
            match response {
                PreviousEvents::Loaded(events) => {
                    let batch = page_events(request, events@);
                    let items = old(self).items().drop_first();
                    let st = prepend_fold(old(self).stage(seq![]), batch);
                    let rd = with_dividers(st.0, st.5, None);
                    &&& final(self).is_complete_spec() == has_room_create(batch)
                    &&& final(self).datas() == st.0
                    &&& final(self).ids() == st.2
                    &&& final(self).pending() == old(self).pending()
                    &&& final(self).items() == rows_after_insert(st.0, items, 0, st.5)
                    &&& (final(self).rels(), final(self).waiting()) == link_items(st.1, st.3, st.2, st.0, rd)
                    &&& final(self).oldest() == (if batch.len() == 0 { None } else { Some(batch.last().event_id) })
                    &&& change == Some(ListChange {
                        position: 0,
                        removed: if drops_next_divider(st.0, items, 0, st.5) { 1 } else { 0 },
                        added: rd.len() as usize,
                    })
                },
                _ => {
                    &&& change is None
                    &&& final(self).items() == old(self).items().drop_first()
                    &&& final(self).datas() == old(self).datas()
                    &&& final(self).rels() == old(self).rels()
                    &&& final(self).ids() == old(self).ids()
                    &&& final(self).waiting() == old(self).waiting()
                    &&& final(self).pending() == old(self).pending()
                    &&& final(self).oldest() == old(self).oldest()
                    &&& final(self).is_complete_spec() == old(self).is_complete_spec()
                },
            },
            old(self).headers_consistent() ==> final(self).headers_consistent(),
    {
        let ghost items0 = self.list@;
        self.list.remove(0);
        self.loading = false;
        assert(self.list@ =~= items0.drop_first());
        assert forall|i: int| 0 <= i < self.list@.len() implies (#[trigger] self.list@[i].item_type matches ItemType::Event(h) ==> h < self.events@.len()) && (!(self.list@[i].item_type is Event) ==> !self.list@[i].show_header) by {
            assert(self.list@[i] == items0[i + 1]);
        }
        proof {
            if old(self).headers_consistent() {
                assert forall|i: int| 0 <= i < self.list@.len() implies #[trigger] self.list@[i].show_header == header_for(self.events@, self.list@, i) by {
                    assert(self.list@[i] == items0[i + 1]);
                    assert(items0[i + 1].show_header == header_for(self.events@, items0, i + 1));
                    if i > 0 {
                        assert(self.list@[i - 1] == items0[i]);
                    }
                }
            }
        }
        match response {
            PreviousEvents::Loaded(events) => {
                let ghost all = events@;
                let mut events = events;
                if request.from.is_some() && events.len() > 0 {
                    events.remove(0);
                }
                assert(events@ =~= page_events(request, all));
                let mut has_create = false;
                let mut i: usize = 0;
                while i < events.len()
                    invariant
                        i <= events@.len(),
                        has_create == exists|j: int| 0 <= j < i && crate::event::is_room_create(#[trigger] events@[j].event),
                    decreases events@.len() - i,
                {
                    if events[i].is_room_create() {
                        has_create = true;
                    }
                    i = i + 1;
                }
                self.complete = has_create;
                let change = self.prepend(events);
                Some(change)
            },
            _ => None,
        }
    }
}

/// With no rows inserted, a consistent list keeps its headers.
proof fn lemma_updated_headers_nothing(datas: Seq<EventData>, items: Seq<Item>, position: int)
    requires
        0 <= position <= items.len(),
        headers_ok(datas, items),
    ensures
        updated_headers(datas, items, position, position) == items,
{
    let u = updated_headers(datas, items, position, position);
    lemma_header_stop_bounds(datas, items, position);
    assert forall|j: int| 0 <= j < items.len() implies u[j] == items[j] by {
        if u[j] != items[j] {
            assert(items[j].show_header == header_for(datas, items, j));
            assert(items[j].item_type is Event);
        }
    }
    assert(u =~= items);
}

/// Inserting no rows changes nothing.
proof fn lemma_insert_nothing(datas: Seq<EventData>, items: Seq<Item>, position: int)
    requires
        0 <= position <= items.len(),
        headers_ok(datas, items) || true,
    ensures
        rows_after_insert(datas, items, position, seq![]) == updated_headers(datas, items, position, position),
{
    assert(with_dividers(datas, seq![], day_before(datas, items, position)) =~= seq![]);
    assert(items.subrange(0, position) + seq![] + items.subrange(position, items.len() as int) =~= items);
}

/// The rows `list` with `rd` put at `position`, dropping the divider at
/// `position` when it is for the day `last_div`; also says whether it dropped
/// one.
fn splice_rows(list: &Vec<Item>, position: usize, rd: &Vec<Item>, last_div: Option<i64>) -> (res: (Vec<Item>, usize))
    requires
        position <= list@.len(),
    ensures
        res.1 == (if position < list@.len() && (list@[position as int].item_type matches ItemType::DayDivider { day, .. } && last_div == Some(day)) { 1usize } else { 0usize }),
        res.0@ == list@.subrange(0, position as int) + rd@ + (if res.1 == 1 {
            list@.subrange(position as int, list@.len() as int).drop_first()
        } else {
            list@.subrange(position as int, list@.len() as int)
        }),
{
    let ghost items0 = list@;
    let mut n: Vec<Item> = Vec::new();
    let mut i: usize = 0;
    while i < position
        invariant
            i <= position <= list@.len(),
            items0 == list@,
            n@ == items0.subrange(0, i as int),
        decreases position - i,
    {
        n.push(list[i]);
        i = i + 1;
    }
    let mut j: usize = 0;
    while j < rd.len()
        invariant
            j <= rd@.len(),
            position <= list@.len(),
            items0 == list@,
            n@ == items0.subrange(0, position as int) + rd@.take(j as int),
        decreases rd@.len() - j,
    {
        assert(rd@.take(j + 1) =~= rd@.take(j as int).push(rd@[j as int]));
        n.push(rd[j]);
        j = j + 1;
    }
    assert(rd@.take(rd@.len() as int) =~= rd@);
    let mut start = position;
    let mut removed: usize = 0;
    if position < list.len() {
        if let ItemType::DayDivider { day, .. } = list[position].item_type {
            if same_day(Some(day), last_div) {
                start = position + 1;
                removed = 1;
            }
        }
    }
    let ghost suffix = items0.subrange(position as int, items0.len() as int);
    let ghost kept = if removed == 1 { suffix.drop_first() } else { suffix };
    assert(kept =~= items0.subrange(start as int, items0.len() as int));
    let mut k: usize = start;
    while k < list.len()
        invariant
            start <= k <= list@.len(),
            position <= list@.len(),
            items0 == list@,
            n@ == items0.subrange(0, position as int) + rd@ + items0.subrange(start as int, k as int),
        decreases list@.len() - k,
    {
        n.push(list[k]);
        k = k + 1;
        assert(items0.subrange(start as int, k as int) =~= items0.subrange(start as int, k - 1).push(items0[k - 1]));
    }
    assert(n@ =~= items0.subrange(0, position as int) + rd@ + kept);
    (n, removed)
}

/// The spliced rows keep the timeline's invariants on rows.
proof fn lemma_spliced_wf(datas: Seq<EventData>, items0: Seq<Item>, position: int, rd: Seq<Item>, nn: Seq<Item>, dropped: bool, loading: bool)
    requires
        0 <= position <= items0.len(),
        forall|i: int| 0 <= i < items0.len() ==> (#[trigger] items0[i].item_type matches ItemType::Event(h) ==> h < datas.len()),
        plain_non_events(items0),
        loading ==> position > 0 && items0.len() > 0 && items0[0].item_type == ItemType::LoadingSpinner,
        forall|x: int| 0 <= x < rd.len() ==> ((#[trigger] rd[x].item_type matches ItemType::Event(h) ==> h < datas.len()) && (!(rd[x].item_type is Event) ==> !rd[x].show_header)),
        nn == items0.subrange(0, position) + rd + (if dropped {
            items0.subrange(position, items0.len() as int).drop_first()
        } else {
            items0.subrange(position, items0.len() as int)
        }),
        dropped ==> position < items0.len(),
    ensures
        forall|x: int| 0 <= x < nn.len() ==> (#[trigger] nn[x].item_type matches ItemType::Event(h) ==> h < datas.len()),
        plain_non_events(nn),
        nn.len() >= position + rd.len(),
        loading ==> nn.len() > 0 && nn[0].item_type == ItemType::LoadingSpinner,
{
    let d: int = if dropped { 1 } else { 0 };
    assert forall|x: int| 0 <= x < nn.len() implies (#[trigger] nn[x].item_type matches ItemType::Event(h) ==> h < datas.len()) && (!(nn[x].item_type is Event) ==> !nn[x].show_header) by {
        if x < position {
            assert(nn[x] == items0[x]);
        } else if x < position + rd.len() {
            assert(nn[x] == rd[x - position]);
        } else {
            assert(nn[x] == items0[x - rd.len() + d]);
        }
    }
    if loading {
        assert(nn[0] == items0[0]);
    }
}

/// Updating headers keeps the timeline's invariants on rows.
proof fn lemma_headers_keep_wf(datas: Seq<EventData>, nn: Seq<Item>, u: Seq<Item>, s: int, e: int, loading: bool)
    requires
        u == updated_headers(datas, nn, s, e),
        forall|x: int| 0 <= x < nn.len() ==> (#[trigger] nn[x].item_type matches ItemType::Event(h) ==> h < datas.len()),
        plain_non_events(nn),
        loading ==> nn.len() > 0 && nn[0].item_type == ItemType::LoadingSpinner,
    ensures
        forall|x: int| 0 <= x < u.len() ==> (#[trigger] u[x].item_type matches ItemType::Event(h) ==> h < datas.len()),
        plain_non_events(u),
        loading ==> u.len() > 0 && u[0].item_type == ItemType::LoadingSpinner,
        forall|x: int| 0 <= x < u.len() ==> #[trigger] u[x].item_type == nn[x].item_type,
{
    assert forall|x: int| 0 <= x < u.len() implies #[trigger] u[x].item_type == nn[x].item_type && (!(u[x].item_type is Event) ==> !u[x].show_header) by {
    }
    if loading {
        assert(u[0].item_type == nn[0].item_type);
    }
}

/// The rows that `with_dividers` makes are the given rows and dividers.
proof fn lemma_dividers_shape(datas: Seq<EventData>, r: Seq<Item>, prev: Option<i64>)
    ensures
        forall|x: int|
            0 <= x < with_dividers(datas, r, prev).len() ==> {
                let it = #[trigger] with_dividers(datas, r, prev)[x];
                (it.item_type matches ItemType::DayDivider { .. } && !it.show_header) || exists|y: int|
                    0 <= y < r.len() && r[y] == it
            },
    decreases r.len(),
{
    if r.len() > 0 {
        lemma_dividers_shape(datas, r.drop_last(), prev);
        let w = with_dividers(datas, r, prev);
        let w0 = with_dividers(datas, r.drop_last(), prev);
        assert forall|x: int| 0 <= x < w.len() implies {
            let it = #[trigger] w[x];
            (it.item_type matches ItemType::DayDivider { .. } && !it.show_header) || exists|y: int|
                0 <= y < r.len() && r[y] == it
        } by {
            if x < w0.len() {
                assert(w[x] == w0[x]);
                if !(w0[x].item_type matches ItemType::DayDivider { .. } && !w0[x].show_header) {
                    let y = choose|y: int| 0 <= y < r.drop_last().len() && r.drop_last()[y] == w0[x];
                    assert(r[y] == w0[x]);
                }
            } else if w[x] == r.last() {
                assert(r[r.len() - 1] == w[x]);
            } else {
                if starts_day(datas, r, prev) {
                    assert(item_day(datas, r.last()) is Some);
                }
            }
        }
    }
}

} // verus!
verus! {

/// Rows whose events keep their place in a longer store of events keep the
/// same headers.
proof fn lemma_headers_ok_extend(datas: Seq<EventData>, more: Seq<EventData>, items: Seq<Item>)
    requires
        datas.len() <= more.len(),
        forall|h: int| 0 <= h < datas.len() ==> more[h] == datas[h],
        forall|i: int| 0 <= i < items.len() ==> (#[trigger] items[i].item_type matches ItemType::Event(h) ==> h < datas.len()),
        headers_ok(datas, items),
    ensures
        headers_ok(more, items),
{
    assert forall|i: int| 0 <= i < items.len() implies #[trigger] items[i].show_header == header_for(more, items, i) by {
        assert(item_hideable(more, items[i]) == item_hideable(datas, items[i]));
        assert(item_sender(more, items[i]) == item_sender(datas, items[i]));
        if i > 0 {
            assert(items[i - 1].item_type matches ItemType::Event(h) ==> h < datas.len());
            assert(item_hideable(more, items[i - 1]) == item_hideable(datas, items[i - 1]));
            assert(item_sender(more, items[i - 1]) == item_sender(datas, items[i - 1]));
        }
    }
}

/// Inserting event rows into rows that show the right headers gives rows that
/// show the right headers: the day dividers and the update of the headers
/// after the inserted rows restore what the insertion disturbed.
pub proof fn lemma_insert_keeps_headers(datas: Seq<EventData>, items: Seq<Item>, position: int, r: Seq<Item>)
    requires
        0 <= position <= items.len(),
        headers_ok(datas, items),
        plain_non_events(items),
        forall|x: int| 0 <= x < r.len() ==> (#[trigger] r[x].item_type matches ItemType::Event(h) && h < datas.len()),
    ensures
        headers_ok(datas, rows_after_insert(datas, items, position, r)),
        plain_non_events(rows_after_insert(datas, items, position, r)),
{
    let prev = day_before(datas, items, position);
    let rd = with_dividers(datas, r, prev);
    lemma_dividers_shape(datas, r, prev);
    let suffix = items.subrange(position, items.len() as int);
    let dropped = drops_next_divider(datas, items, position, r);
    let kept = if dropped { suffix.drop_first() } else { suffix };
    let d: int = if dropped { 1 } else { 0 };
    let n = items.subrange(0, position) + rd + kept;
    let e = position + rd.len();
    assert forall|x: int| 0 <= x < n.len() && !(#[trigger] n[x].item_type is Event) implies !n[x].show_header by {
        if x < position {
            assert(n[x] == items[x]);
        } else if x < e {
            assert(n[x] == rd[x - position]);
            if !(rd[x - position].item_type matches ItemType::DayDivider { .. } && !rd[x - position].show_header) {
                let y = choose|y: int| 0 <= y < r.len() && r[y] == rd[x - position];
                assert(r[y].item_type is Event);
            }
        } else {
            assert(n[x] == items[x - rd.len() + d]);
        }
    }
    assert forall|j: int| 0 <= j < n.len() && (j < position || j > e) implies #[trigger] n[j].show_header == header_for(datas, n, j) by {
        if j < position {
            assert(n[j] == items[j]);
            if j > 0 {
                assert(n[j - 1] == items[j - 1]);
            }
            assert(items[j].show_header == header_for(datas, items, j));
        } else {
            assert(n[j] == items[j - rd.len() + d]);
            assert(n[j - 1] == items[j - 1 - rd.len() + d]);
            assert(items[j - rd.len() + d].show_header == header_for(datas, items, j - rd.len() + d));
        }
    }
    if e < n.len() && !item_hideable(datas, n[e]) {
        assert(n[e] == items[position + d]);
        assert(items[position + d].show_header == header_for(datas, items, position + d));
    }
    lemma_updated_headers_ok(datas, n, position, e);
}

} // verus!

verus! {

/// Whether the echo `d`, if it takes over a pending event, keeps that
/// event's sender and whether it may hide its header.
pub open spec fn echo_keeps_row(st: Stage, d: EventData) -> bool {
    (d.transaction_id is Some && st.4.contains_key(d.transaction_id->0) && st.2.contains_key(
        st.4[d.transaction_id->0],
    )) ==> {
        let h = st.2[st.4[d.transaction_id->0]] as int;
        0 <= h < st.0.len() ==> (merged(st.0[h], d).sender == st.0[h].sender && hides_header(
            merged(st.0[h], d).event,
        ) == hides_header(st.0[h].event))
    }
}

/// Whether every echo in `batch` keeps the row of the event it takes over.
pub open spec fn echoes_keep_rows(st: Stage, batch: Seq<EventData>) -> bool
    decreases batch.len(),
{
    if batch.len() == 0 {
        true
    } else {
        echoes_keep_rows(st, batch.drop_last()) && echo_keeps_row(
            append_fold(st, batch.drop_last()),
            batch.last(),
        )
    }
}

/// Whether the rows name only held events and show the right headers, and
/// every known id names a held event.
pub open spec fn rows_consistent(st: Stage, items: Seq<Item>) -> bool {
    &&& forall|i: int| 0 <= i < items.len() ==> (#[trigger] items[i].item_type matches ItemType::Event(h) ==> h < st.0.len())
    &&& forall|k: u64| #[trigger] st.2.contains_key(k) ==> st.2[k] < st.0.len()
    &&& headers_ok(st.0, items)
}

proof fn lemma_headers_ok_same_rows(datas: Seq<EventData>, more: Seq<EventData>, items: Seq<Item>)
    requires
        forall|i: int| 0 <= i < items.len() ==> (#[trigger] items[i].item_type matches ItemType::Event(h) ==> h < datas.len() && h < more.len()
            && more[h as int].sender == datas[h as int].sender && hides_header(more[h as int].event) == hides_header(datas[h as int].event)),
        headers_ok(datas, items),
    ensures
        headers_ok(more, items),
{
    assert forall|i: int| 0 <= i < items.len() implies #[trigger] items[i].show_header == header_for(more, items, i) by {
        assert(item_hideable(more, items[i]) == item_hideable(datas, items[i]));
        assert(item_sender(more, items[i]) == item_sender(datas, items[i]));
        if i > 0 {
            assert(items[i - 1].item_type matches ItemType::Event(h) ==> h < datas.len());
            assert(item_hideable(more, items[i - 1]) == item_hideable(datas, items[i - 1]));
            assert(item_sender(more, items[i - 1]) == item_sender(datas, items[i - 1]));
        }
    }
}

/// A new event keeps the rows consistent.
proof fn lemma_take_new_keeps_rows(st: Stage, d: EventData, at_front: bool, items: Seq<Item>)
    requires
        rows_consistent(st, items),
    ensures
        rows_consistent(take_new_event(st, d, at_front), items),
{
    let st2 = take_new_event(st, d, at_front);
    assert forall|h: int| 0 <= h < st.0.len() implies st2.0[h] == st.0[h] by {}
    lemma_headers_ok_extend(st.0, st2.0, items);
}

/// Events arriving at the end keep the rows consistent, as long as every
/// echo keeps the row of the pending event it takes over.
pub proof fn lemma_append_fold_keeps_rows(st: Stage, batch: Seq<EventData>, items: Seq<Item>)
    requires
        rows_consistent(st, items),
        echoes_keep_rows(st, batch),
    ensures
        rows_consistent(append_fold(st, batch), items),
    decreases batch.len(),
{
    if batch.len() > 0 {
        lemma_append_fold_keeps_rows(st, batch.drop_last(), items);
        let s1 = append_fold(st, batch.drop_last());
        let d = batch.last();
        if d.transaction_id is Some && s1.4.contains_key(d.transaction_id->0) {
            let pid = s1.4[d.transaction_id->0];
            if s1.2.contains_key(pid) {
                let h = s1.2[pid];
                let s2 = append_step(s1, d);
                assert forall|k: u64| #[trigger] s2.2.contains_key(k) implies s2.2[k] < s2.0.len() by {
                    if k != d.event_id {
                        assert(s1.2.contains_key(k));
                    }
                }
                lemma_headers_ok_same_rows(s1.0, s2.0, items);
            }
        } else {
            lemma_take_new_keeps_rows(s1, d, false, items);
        }
    }
}

/// Older events arriving at the front keep the rows consistent.
pub proof fn lemma_prepend_fold_keeps_rows(st: Stage, batch: Seq<EventData>, items: Seq<Item>)
    requires
        rows_consistent(st, items),
    ensures
        rows_consistent(prepend_fold(st, batch), items),
    decreases batch.len(),
{
    if batch.len() > 0 {
        lemma_prepend_fold_keeps_rows(st, batch.drop_last(), items);
        lemma_take_new_keeps_rows(prepend_fold(st, batch.drop_last()), batch.last(), true, items);
    }
}

} // verus!

verus! {

/// The rows without their day dividers.
pub open spec fn strip_dividers(r: Seq<Item>) -> Seq<Item>
    decreases r.len(),
{
    if r.len() == 0 {
        seq![]
    } else if r.last().item_type is DayDivider {
        strip_dividers(r.drop_last())
    } else {
        strip_dividers(r.drop_last()).push(r.last())
    }
}

proof fn lemma_strip_push(r: Seq<Item>, it: Item)
    ensures
        strip_dividers(r.push(it)) == if it.item_type is DayDivider {
            strip_dividers(r)
        } else {
            strip_dividers(r).push(it)
        },
{
    assert(r.push(it).drop_last() =~= r);
}

/// Adding day dividers only adds dividers: without them, the rows are the
/// inserted rows in their order.
pub proof fn lemma_dividers_keep_rows(datas: Seq<EventData>, r: Seq<Item>, prev: Option<i64>)
    requires
        forall|x: int| 0 <= x < r.len() ==> (#[trigger] r[x].item_type is Event),
    ensures
        strip_dividers(with_dividers(datas, r, prev)) == r,
    decreases r.len(),
{
    if r.len() == 0 {
        assert(strip_dividers(seq![]) == Seq::<Item>::empty());
    } else {
        assert forall|x: int| 0 <= x < r.drop_last().len() implies (#[trigger] r.drop_last()[x].item_type is Event) by {
            assert(r.drop_last()[x] == r[x]);
        }
        lemma_dividers_keep_rows(datas, r.drop_last(), prev);
        let w0 = with_dividers(datas, r.drop_last(), prev);
        assert(r[r.len() - 1].item_type is Event);
        if starts_day(datas, r, prev) {
            lemma_strip_push(w0, divider_for(datas, r.last()));
            lemma_strip_push(w0.push(divider_for(datas, r.last())), r.last());
        } else {
            lemma_strip_push(w0, r.last());
        }
        assert(r.drop_last().push(r.last()) =~= r);
    }
}

/// Every day divider that is added stands right before an event of its day.
pub proof fn lemma_divider_precedes_its_day(datas: Seq<EventData>, r: Seq<Item>, prev: Option<i64>)
    requires
        forall|x: int| 0 <= x < r.len() ==> (#[trigger] r[x].item_type is Event),
    ensures
        forall|x: int|
            0 <= x < with_dividers(datas, r, prev).len() && (#[trigger] with_dividers(datas, r, prev)[x].item_type matches ItemType::DayDivider { day, .. }) ==> {
                &&& x + 1 < with_dividers(datas, r, prev).len()
                &&& item_day(datas, with_dividers(datas, r, prev)[x + 1]) == Some(with_dividers(datas, r, prev)[x].item_type->day)
            },
    decreases r.len(),
{
    if r.len() > 0 {
        assert forall|x: int| 0 <= x < r.drop_last().len() implies (#[trigger] r.drop_last()[x].item_type is Event) by {
            assert(r.drop_last()[x] == r[x]);
        }
        lemma_divider_precedes_its_day(datas, r.drop_last(), prev);
        let w0 = with_dividers(datas, r.drop_last(), prev);
        let w = with_dividers(datas, r, prev);
        assert(r[r.len() - 1].item_type is Event);
        assert forall|x: int|
            0 <= x < w.len() && (#[trigger] w[x].item_type matches ItemType::DayDivider { day, .. }) implies {
                &&& x + 1 < w.len()
                &&& item_day(datas, w[x + 1]) == Some(w[x].item_type->day)
            } by {
            if x < w0.len() {
                assert(w[x] == w0[x]);
                if x + 1 < w0.len() {
                    assert(w[x + 1] == w0[x + 1]);
                }
            }
        }
    }
}

/// A server echo of a pending event whose row is shown takes that row over:
/// appending it adds no row and leaves the rows as they are; the echo's id
/// then names the pending event's place, which holds the echo merged in, and
/// the pending event's temporary id and its transaction are forgotten.
pub proof fn lemma_echo_takes_over(st: Stage, d: EventData, items: Seq<Item>)
    requires
        st.5.len() == 0,
        d.transaction_id is Some,
        st.4.contains_key(d.transaction_id->0),
        st.2.contains_key(st.4[d.transaction_id->0]),
    ensures
        ({
            let t = d.transaction_id->0;
            let pid = st.4[t];
            let h = st.2[pid];
            let after = append_fold(st, seq![d]);
            &&& after.5.len() == 0
            &&& after.0 == st.0.update(h as int, merged(st.0[h as int], d))
            &&& after.2 == st.2.remove(pid).insert(d.event_id, h)
            &&& after.4 == st.4.remove(t)
            &&& rows_after_insert(after.0, items, items.len() as int, after.5) == items
        }),
{
    let b = seq![d];
    assert(b.drop_last() =~= Seq::<EventData>::empty());
    assert(b.last() == d);
    assert(append_fold(st, b.drop_last()) == st);
    assert(append_fold(st, b) == append_step(st, d));
    let after = append_fold(st, b);
    assert(after.5 == st.5);
    let n = items.len() as int;
    assert(with_dividers(after.0, after.5, day_before(after.0, items, n)) =~= Seq::<Item>::empty());
    let joined = items.subrange(0, n) + Seq::<Item>::empty() + (if drops_next_divider(after.0, items, n, after.5) {
        items.subrange(n, n).drop_first()
    } else {
        items.subrange(n, n)
    });
    assert(!drops_next_divider(after.0, items, n, after.5) ==> joined =~= items);
    assert(header_stop(after.0, joined, n) == joined.len());
    assert(updated_headers(after.0, joined, n, n) =~= joined);
}

/// Every day divider of `items` stands right before an event of its day.
pub open spec fn dividers_ok(datas: Seq<EventData>, items: Seq<Item>) -> bool {
    forall|x: int|
        0 <= x < items.len() && (#[trigger] items[x].item_type matches ItemType::DayDivider { day, .. }) ==> {
            &&& x + 1 < items.len()
            &&& item_day(datas, items[x + 1]) == Some(items[x].item_type->day)
        }
}

/// Inserting event rows at the start or at the end of rows whose every day
/// divider stands right before an event of its day keeps that so: the
/// dividers that come with the new rows stand before their events, and a
/// divider after them that would repeat their last day goes.
pub proof fn lemma_insert_keeps_dividers(datas: Seq<EventData>, items: Seq<Item>, position: int, r: Seq<Item>)
    requires
        position == 0 || position == items.len(),
        dividers_ok(datas, items),
        forall|x: int| 0 <= x < r.len() ==> (#[trigger] r[x].item_type is Event),
    ensures
        dividers_ok(datas, rows_after_insert(datas, items, position, r)),
{
    let p = position;
    let rd = with_dividers(datas, r, day_before(datas, items, p));
    let suffix = items.subrange(p, items.len() as int);
    let drop = drops_next_divider(datas, items, p, r);
    let suf = if drop { suffix.drop_first() } else { suffix };
    let n = items.subrange(0, p) + rd + suf;
    let fin = rows_after_insert(datas, items, p, r);
    assert(fin == updated_headers(datas, n, p, p + rd.len()));
    lemma_divider_precedes_its_day(datas, r, day_before(datas, items, p));
    assert(fin.len() == n.len());
    assert forall|j: int| 0 <= j < n.len() implies #[trigger] fin[j].item_type == n[j].item_type by {}
    assert forall|x: int|
        0 <= x < fin.len() && (#[trigger] fin[x].item_type matches ItemType::DayDivider { day, .. }) implies {
            &&& x + 1 < fin.len()
            &&& item_day(datas, fin[x + 1]) == Some(fin[x].item_type->day)
        } by {
        assert(fin[x].item_type == n[x].item_type);
        if x < p {
            assert(n[x] == items[x]);
            assert(x + 1 < items.len());
            if p == 0 {
                assert(false);
            }
            assert(n[x + 1] == items[x + 1]);
        } else if x < p + rd.len() {
            assert(n[x] == rd[x - p]);
            assert(n[x + 1] == rd[x - p + 1]);
        } else {
            if p == items.len() {
                assert(suffix.len() == 0);
                assert(false);
            }
            if drop {
                assert(n[x] == items[x - rd.len() + 1]);
                assert(n[x + 1] == items[x - rd.len() + 2]);
            } else {
                assert(n[x] == items[x - rd.len()]);
                assert(n[x + 1] == items[x - rd.len() + 1]);
            }
        }
        assert(fin[x + 1].item_type == n[x + 1].item_type);
    }
}

/// Events added after those that the rows name leave the rows' dividers
/// before the events of their days.
pub proof fn lemma_dividers_ok_extend(datas: Seq<EventData>, more: Seq<EventData>, items: Seq<Item>)
    requires
        dividers_ok(datas, items),
        datas.len() <= more.len(),
        forall|k: int| 0 <= k < datas.len() ==> #[trigger] more[k] == datas[k],
        forall|x: int| 0 <= x < items.len() ==> (#[trigger] items[x].item_type matches ItemType::Event(h) ==> h < datas.len()),
    ensures
        dividers_ok(more, items),
{
    assert forall|x: int|
        0 <= x < items.len() && (#[trigger] items[x].item_type matches ItemType::DayDivider { day, .. }) implies {
            &&& x + 1 < items.len()
            &&& item_day(more, items[x + 1]) == Some(items[x].item_type->day)
        } by {
        assert(x + 1 < items.len());
        if let ItemType::Event(h) = items[x + 1].item_type {
            assert(more[h as int] == datas[h as int]);
        }
    }
}

/// The order in which an event and an event relating to it arrive does not
/// matter: the relating event arriving after the event it relates to is
/// linked to it at once; arriving before, it waits under that event's id and
/// is linked when that event comes. Either way the event's related events
/// end with the relating one, and nothing is left waiting.
pub proof fn lemma_relation_order_free(
    rels: Seq<Seq<usize>>,
    waiting: Map<u64, Seq<u64>>,
    map: Map<u64, usize>,
    ha: usize,
    da: EventData,
    hr: usize,
    dr: EventData,
)
    requires
        ha < rels.len(),
        hr < rels.len(),
        ha != hr,
        related_event(da.event) is None,
        related_event(dr.event) == Some(da.event_id),
        da.event_id != dr.event_id,
        !map.contains_key(da.event_id),
        !map.contains_key(dr.event_id),
        !waiting.contains_key(da.event_id),
        !waiting.contains_key(dr.event_id),
    ensures
        ({
            let m_a = map.insert(da.event_id, ha);
            let m_r = map.insert(dr.event_id, hr);
            let m_both = m_a.insert(dr.event_id, hr);
            let a1 = link_one(rels, waiting, m_a, ha, da);
            let a_then_r = link_one(a1.0, a1.1, m_both, hr, dr);
            let r1 = link_one(rels, waiting, m_r, hr, dr);
            let r_then_a = link_one(r1.0, r1.1, m_r.insert(da.event_id, ha), ha, da);
            &&& a_then_r == r_then_a
            &&& a_then_r.0 == rels.update(ha as int, rels[ha as int].push(hr))
            &&& a_then_r.1 == waiting
        }),
{
    let m_a = map.insert(da.event_id, ha);
    let m_r = map.insert(dr.event_id, hr);
    let m_both = m_a.insert(dr.event_id, hr);
    let m_ra = m_r.insert(da.event_id, ha);
    assert(m_ra =~= m_both);
    let a1 = link_one(rels, waiting, m_a, ha, da);
    assert(a1 == (rels, waiting));
    let a_then_r = link_one(a1.0, a1.1, m_both, hr, dr);
    assert(a_then_r == (rels.update(ha as int, rels[ha as int].push(hr)), waiting));
    let r1 = link_one(rels, waiting, m_r, hr, dr);
    let w1 = waiting.insert(da.event_id, seq![dr.event_id]);
    assert((if waiting.contains_key(da.event_id) { waiting[da.event_id] } else { seq![] }).push(dr.event_id) =~= seq![dr.event_id]);
    assert(r1 == (rels, w1));
    let ids = seq![dr.event_id];
    assert(ids.drop_last() =~= Seq::<u64>::empty());
    assert(resolve_ids(ids, m_ra) == resolve_ids(Seq::<u64>::empty(), m_ra).push(hr));
    assert(resolve_ids(ids, m_ra) =~= seq![hr]);
    assert(rels[ha as int] + seq![hr] =~= rels[ha as int].push(hr));
    assert(w1.remove(da.event_id) =~= waiting);
}

} // verus!

verus! {

/// What a row is, for where day dividers stand: an event by its place, a
/// day divider by its day, or another row.
pub open spec fn kind(t: ItemType) -> (int, int) {
    match t {
        ItemType::Event(h) => (0, h as int),
        ItemType::DayDivider { day, .. } => (1, day as int),
        ItemType::NewMessageDivider => (2, 0),
        ItemType::LoadingSpinner => (3, 0),
    }
}

/// The kinds of the rows `s`.
pub open spec fn kinds(s: Seq<Item>) -> Seq<(int, int)> {
    Seq::new(s.len(), |i: int| kind(s[i].item_type))
}

/// Every row of `items` is an event the timeline holds or a day divider.
pub open spec fn events_and_days(datas: Seq<EventData>, items: Seq<Item>) -> bool {
    forall|x: int|
        0 <= x < items.len() ==> (#[trigger] items[x].item_type matches ItemType::Event(h) && h < datas.len())
            || items[x].item_type is DayDivider
}

/// Day dividers stand exactly where the day changes: before the first event,
/// and between two events exactly when their days differ, nowhere else.
pub open spec fn days_divided(datas: Seq<EventData>, items: Seq<Item>) -> bool {
    &&& events_and_days(datas, items)
    &&& kinds(items) == kinds(with_dividers(datas, strip_dividers(items), None))
}

proof fn lemma_running_concat(datas: Seq<EventData>, a: Seq<Item>, b: Seq<Item>, p: Option<i64>)
    ensures
        running_day(datas, a + b, p) == running_day(datas, b, running_day(datas, a, p)),
    decreases b.len(),
{
    if b.len() == 0 {
        assert(a + b =~= a);
    } else {
        assert((a + b).drop_last() =~= a + b.drop_last());
        assert((a + b).last() == b.last());
        lemma_running_concat(datas, a, b.drop_last(), p);
    }
}

proof fn lemma_dividers_concat(datas: Seq<EventData>, a: Seq<Item>, b: Seq<Item>, p: Option<i64>)
    ensures
        with_dividers(datas, a + b, p) == with_dividers(datas, a, p) + with_dividers(
            datas,
            b,
            running_day(datas, a, p),
        ),
    decreases b.len(),
{
    if b.len() == 0 {
        assert(a + b =~= a);
        assert(with_dividers(datas, a, p) + Seq::<Item>::empty() =~= with_dividers(datas, a, p));
    } else {
        let q = running_day(datas, a, p);
        assert((a + b).drop_last() =~= a + b.drop_last());
        assert((a + b).last() == b.last());
        lemma_dividers_concat(datas, a, b.drop_last(), p);
        lemma_running_concat(datas, a, b.drop_last(), p);
        assert(starts_day(datas, a + b, p) == starts_day(datas, b, q));
        let w = with_dividers(datas, a, p);
        let v = with_dividers(datas, b.drop_last(), q);
        if starts_day(datas, b, q) {
            assert((w + v).push(divider_for(datas, b.last())).push(b.last()) =~= w + v.push(divider_for(datas, b.last())).push(b.last()));
        } else {
            assert((w + v).push(b.last()) =~= w + v.push(b.last()));
        }
    }
}

proof fn lemma_strip_concat(a: Seq<Item>, b: Seq<Item>)
    ensures
        strip_dividers(a + b) == strip_dividers(a) + strip_dividers(b),
    decreases b.len(),
{
    if b.len() == 0 {
        assert(a + b =~= a);
        assert(strip_dividers(a) + Seq::<Item>::empty() =~= strip_dividers(a));
    } else {
        assert((a + b).drop_last() =~= a + b.drop_last());
        assert((a + b).last() == b.last());
        lemma_strip_concat(a, b.drop_last());
        let sa = strip_dividers(a);
        let sb = strip_dividers(b.drop_last());
        assert((sa + sb).push(b.last()) =~= sa + sb.push(b.last()));
    }
}

/// Rows of the same kinds get dividers of the same kinds, and keep rows of
/// the same kinds without their dividers.
proof fn lemma_kinds_congruent(datas: Seq<EventData>, a: Seq<Item>, b: Seq<Item>, p: Option<i64>)
    requires
        kinds(a) == kinds(b),
    ensures
        kinds(with_dividers(datas, a, p)) == kinds(with_dividers(datas, b, p)),
        kinds(strip_dividers(a)) == kinds(strip_dividers(b)),
        running_day(datas, a, p) == running_day(datas, b, p),
    decreases a.len(),
{
    assert(a.len() == kinds(a).len() && b.len() == kinds(b).len());
    if a.len() > 0 {
        assert(kinds(a.drop_last()) =~= kinds(a).drop_last());
        assert(kinds(b.drop_last()) =~= kinds(b).drop_last());
        lemma_kinds_congruent(datas, a.drop_last(), b.drop_last(), p);
        assert(kind(a.last().item_type) == kinds(a)[a.len() - 1]);
        assert(kind(b.last().item_type) == kinds(b)[b.len() - 1]);
        assert(item_day(datas, a.last()) == item_day(datas, b.last()));
        assert(kind(divider_for(datas, a.last()).item_type) == kind(divider_for(datas, b.last()).item_type));
        let wa = with_dividers(datas, a.drop_last(), p);
        let wb = with_dividers(datas, b.drop_last(), p);
        if starts_day(datas, a, p) {
            assert(kinds(wa.push(divider_for(datas, a.last())).push(a.last())) =~= kinds(wa).push(kind(divider_for(datas, a.last()).item_type)).push(kind(a.last().item_type)));
            assert(kinds(wb.push(divider_for(datas, b.last())).push(b.last())) =~= kinds(wb).push(kind(divider_for(datas, b.last()).item_type)).push(kind(b.last().item_type)));
        } else {
            assert(kinds(wa.push(a.last())) =~= kinds(wa).push(kind(a.last().item_type)));
            assert(kinds(wb.push(b.last())) =~= kinds(wb).push(kind(b.last().item_type)));
        }
        let sa = strip_dividers(a.drop_last());
        let sb = strip_dividers(b.drop_last());
        assert(kinds(sa.push(a.last())) =~= kinds(sa).push(kind(a.last().item_type)));
        assert(kinds(sb.push(b.last())) =~= kinds(sb).push(kind(b.last().item_type)));
    }
}

proof fn lemma_kinds_concat(a: Seq<Item>, b: Seq<Item>)
    ensures
        kinds(a + b) == kinds(a) + kinds(b),
{
    assert(kinds(a + b) =~= kinds(a) + kinds(b));
}

/// Every row of `r` is an event the timeline holds.
pub open spec fn held_events(datas: Seq<EventData>, r: Seq<Item>) -> bool {
    forall|x: int| 0 <= x < r.len() ==> (#[trigger] r[x].item_type matches ItemType::Event(h) && h < datas.len())
}

proof fn lemma_held_drop_last(datas: Seq<EventData>, r: Seq<Item>)
    requires
        held_events(datas, r),
        r.len() > 0,
    ensures
        held_events(datas, r.drop_last()),
        item_day(datas, r.last()) is Some,
{
    assert forall|x: int| 0 <= x < r.drop_last().len() implies (#[trigger] r.drop_last()[x].item_type matches ItemType::Event(h) && h < datas.len()) by {
        assert(r.drop_last()[x] == r[x]);
    }
    assert(r[r.len() - 1] == r.last());
}

proof fn lemma_last_divider_is_running(datas: Seq<EventData>, r: Seq<Item>)
    requires
        held_events(datas, r),
        r.len() > 0,
    ensures
        last_divider_day(datas, r, None) == running_day(datas, r, None),
        running_day(datas, r, None) == item_day(datas, r.last()),
    decreases r.len(),
{
    lemma_held_drop_last(datas, r);
    if r.len() > 1 {
        lemma_last_divider_is_running(datas, r.drop_last());
    }
}

proof fn lemma_strip_held(datas: Seq<EventData>, r: Seq<Item>)
    requires
        held_events(datas, r),
    ensures
        strip_dividers(r) == r,
    decreases r.len(),
{
    if r.len() > 0 {
        lemma_held_drop_last(datas, r);
        lemma_strip_held(datas, r.drop_last());
        assert(r.drop_last().push(r.last()) =~= r);
    }
}

/// The rows `E`, all events, with their dividers, from the day `x` before
/// them: the first event gets a divider unless its day is `x`.
proof fn lemma_dividers_first(datas: Seq<EventData>, e: Seq<Item>, x: Option<i64>)
    requires
        held_events(datas, e),
        e.len() > 0,
    ensures
        ({
            let rest = with_dividers(datas, e.drop_first(), item_day(datas, e[0]));
            with_dividers(datas, e, x) == if item_day(datas, e[0]) != x {
                seq![divider_for(datas, e[0]), e[0]] + rest
            } else {
                seq![e[0]] + rest
            }
        }),
{
    let first = seq![e[0]];
    assert(first + e.drop_first() =~= e);
    lemma_dividers_concat(datas, first, e.drop_first(), x);
    assert(first.drop_last() =~= Seq::<Item>::empty());
    assert(first.last() == e[0]);
    assert(e[0] == e[0]);
    assert(e[0].item_type matches ItemType::Event(h) && h < datas.len());
    assert(running_day(datas, first, x) == item_day(datas, e[0]));
    assert(with_dividers(datas, Seq::<Item>::empty(), x) =~= Seq::<Item>::empty());
    if starts_day(datas, first, x) {
        assert(with_dividers(datas, first, x) =~= seq![divider_for(datas, e[0]), e[0]]);
    } else {
        assert(with_dividers(datas, first, x) =~= seq![e[0]]);
    }
}

/// The rows before their headers are updated, after inserting `r` at
/// `position`.
pub open spec fn joined_rows(datas: Seq<EventData>, items: Seq<Item>, position: int, r: Seq<Item>) -> Seq<Item> {
    let rd = with_dividers(datas, r, day_before(datas, items, position));
    let suffix = items.subrange(position, items.len() as int);
    items.subrange(0, position) + rd + (if drops_next_divider(datas, items, position, r) {
        suffix.drop_first()
    } else {
        suffix
    })
}

proof fn lemma_days_basics(datas: Seq<EventData>, items: Seq<Item>)
    requires
        days_divided(datas, items),
    ensures
        held_events(datas, strip_dividers(items)),
        items.len() == with_dividers(datas, strip_dividers(items), None).len(),
        strip_dividers(items).len() == 0 ==> items.len() == 0,
{
    lemma_strip_events(datas, items);
    let w0 = with_dividers(datas, strip_dividers(items), None);
    assert(kinds(items).len() == items.len());
    assert(kinds(w0).len() == w0.len());
    if strip_dividers(items).len() == 0 {
        assert(w0 =~= Seq::<Item>::empty());
    }
}

proof fn lemma_front_kinds(datas: Seq<EventData>, items: Seq<Item>, r: Seq<Item>)
    requires
        days_divided(datas, items),
        held_events(datas, r),
    ensures
        kinds(joined_rows(datas, items, 0, r)) == kinds(with_dividers(datas, strip_dividers(joined_rows(datas, items, 0, r)), None)),
{
    let e = strip_dividers(items);
    let w0 = with_dividers(datas, e, None);
    let rd = with_dividers(datas, r, None);
    let drop = drops_next_divider(datas, items, 0, r);
    let suf = if drop { items.drop_first() } else { items };
    let n = joined_rows(datas, items, 0, r);
    assert(items.subrange(0, 0) =~= Seq::<Item>::empty());
    assert(items.subrange(0, items.len() as int) =~= items);
    assert(n =~= rd + suf);
    lemma_days_basics(datas, items);
    assert(forall|x: int| 0 <= x < r.len() ==> (#[trigger] r[x].item_type is Event));
    lemma_dividers_keep_rows(datas, r, None);
    let q = running_day(datas, r, None);
    let wq = with_dividers(datas, e, q);
    lemma_dividers_concat(datas, r, e, None);
    if e.len() == 0 {
        assert(!drop);
        assert(wq =~= Seq::<Item>::empty());
        assert(w0 =~= Seq::<Item>::empty());
        assert(kinds(suf) =~= kinds(wq));
    } else {
        lemma_dividers_first(datas, e, None);
        lemma_dividers_first(datas, e, q);
        assert(kinds(items) == kinds(w0));
        assert(kinds(w0)[0] == kind(divider_for(datas, e[0]).item_type));
        assert(kind(items[0].item_type) == kinds(items)[0]);
        assert(items[0].item_type matches ItemType::DayDivider { day, .. } && Some(day) == item_day(datas, e[0]));
        if r.len() > 0 {
            lemma_last_divider_is_running(datas, r);
        } else {
            assert(last_divider_day(datas, r, None) is None);
        }
        assert(drop == (q == item_day(datas, e[0])));
        if drop {
            assert(kinds(suf) =~= kinds(items).drop_first());
            assert(kinds(wq) =~= kinds(w0).drop_first());
        } else {
            assert(wq == w0);
        }
    }
    assert(kinds(suf) == kinds(wq));
    lemma_strip_concat(rd, suf);
    if drop {
        assert(seq![items[0]] + suf =~= items);
        lemma_strip_concat(seq![items[0]], suf);
        assert(seq![items[0]].drop_last() =~= Seq::<Item>::empty());
        assert(seq![items[0]].last() == items[0]);
        assert(items[0].item_type is DayDivider);
        assert(strip_dividers(Seq::<Item>::empty()) =~= Seq::<Item>::empty());
        assert(strip_dividers(seq![items[0]]) =~= Seq::<Item>::empty());
        assert(strip_dividers(items) =~= strip_dividers(suf));
    }
    assert(strip_dividers(n) == r + e);
    lemma_kinds_concat(rd, suf);
    lemma_kinds_concat(rd, wq);
}

proof fn lemma_end_kinds(datas: Seq<EventData>, items: Seq<Item>, r: Seq<Item>)
    requires
        days_divided(datas, items),
        held_events(datas, r),
    ensures
        kinds(joined_rows(datas, items, items.len() as int, r)) == kinds(
            with_dividers(datas, strip_dividers(joined_rows(datas, items, items.len() as int, r)), None),
        ),
{
    let p = items.len() as int;
    let e = strip_dividers(items);
    let w0 = with_dividers(datas, e, None);
    let x = day_before(datas, items, p);
    let rd = with_dividers(datas, r, x);
    let n = joined_rows(datas, items, p, r);
    assert(items.subrange(p, p) =~= Seq::<Item>::empty());
    assert(items.subrange(0, p) =~= items);
    assert(!drops_next_divider(datas, items, p, r));
    assert(n =~= items + rd);
    lemma_days_basics(datas, items);
    assert(forall|k: int| 0 <= k < r.len() ==> (#[trigger] r[k].item_type is Event));
    lemma_dividers_keep_rows(datas, r, x);
    if e.len() == 0 {
        assert(items.len() == 0);
    } else {
        lemma_last_divider_is_running(datas, e);
        lemma_dividers_last(datas, e, None);
        assert(kinds(items) == kinds(w0));
        assert(kinds(items)[p - 1] == kinds(w0)[w0.len() - 1]);
        assert(kind(items[p - 1].item_type) == kind(e.last().item_type));
        assert(x == item_day(datas, e.last()));
    }
    lemma_dividers_concat(datas, e, r, None);
    lemma_strip_concat(items, rd);
    assert(strip_dividers(n) == e + r);
    lemma_kinds_concat(items, rd);
    lemma_kinds_concat(w0, rd);
}

proof fn lemma_joined_events(datas: Seq<EventData>, items: Seq<Item>, position: int, r: Seq<Item>)
    requires
        0 <= position <= items.len(),
        events_and_days(datas, items),
        held_events(datas, r),
    ensures
        events_and_days(datas, joined_rows(datas, items, position, r)),
{
    let p = position;
    let rd = with_dividers(datas, r, day_before(datas, items, p));
    let n = joined_rows(datas, items, p, r);
    let drop = drops_next_divider(datas, items, p, r);
    assert forall|x: int| 0 <= x < n.len() implies (#[trigger] n[x].item_type matches ItemType::Event(h) && h < datas.len())
        || n[x].item_type is DayDivider by {
        if x < p {
            assert(n[x] == items[x]);
        } else if x < p + rd.len() {
            assert(n[x] == rd[x - p]);
            lemma_rows_of_dividers(datas, r, day_before(datas, items, p), x - p);
        } else if drop {
            assert(n[x] == items[x - rd.len() + 1]);
        } else {
            assert(n[x] == items[x - rd.len()]);
        }
    }
}

/// Inserting events at the start or at the end of rows whose day dividers
/// stand exactly where the day changes keeps them so: the inserted events get
/// dividers where their days change, and a divider after them that would
/// repeat their last day goes.
pub proof fn lemma_insert_keeps_days(datas: Seq<EventData>, items: Seq<Item>, position: int, r: Seq<Item>)
    requires
        position == 0 || position == items.len(),
        days_divided(datas, items),
        held_events(datas, r),
    ensures
        days_divided(datas, rows_after_insert(datas, items, position, r)),
{
    let n = joined_rows(datas, items, position, r);
    let rd = with_dividers(datas, r, day_before(datas, items, position));
    let fin = rows_after_insert(datas, items, position, r);
    assert(fin == updated_headers(datas, n, position, position + rd.len()));
    assert(kinds(fin) =~= kinds(n));
    if position == 0 {
        lemma_front_kinds(datas, items, r);
    } else {
        lemma_end_kinds(datas, items, r);
    }
    lemma_kinds_congruent(datas, fin, n, None);
    lemma_kinds_congruent(datas, strip_dividers(fin), strip_dividers(n), None);
    lemma_joined_events(datas, items, position, r);
    assert forall|x: int| 0 <= x < fin.len() implies (#[trigger] fin[x].item_type matches ItemType::Event(h) && h < datas.len())
        || fin[x].item_type is DayDivider by {
        assert(fin[x].item_type == n[x].item_type);
    }
}

/// The rows without dividers of rows that are events and dividers are
/// events.
proof fn lemma_strip_events(datas: Seq<EventData>, items: Seq<Item>)
    requires
        events_and_days(datas, items),
    ensures
        held_events(datas, strip_dividers(items)),
    decreases items.len(),
{
    if items.len() > 0 {
        assert(events_and_days(datas, items.drop_last())) by {
            assert forall|x: int| 0 <= x < items.drop_last().len() implies (#[trigger] items.drop_last()[x].item_type matches ItemType::Event(h) && h < datas.len())
                || items.drop_last()[x].item_type is DayDivider by {
                assert(items.drop_last()[x] == items[x]);
            }
        }
        lemma_strip_events(datas, items.drop_last());
        assert(items[items.len() - 1] == items.last());
        let s = strip_dividers(items.drop_last());
        if !(items.last().item_type is DayDivider) {
            assert forall|x: int| 0 <= x < s.push(items.last()).len() implies (#[trigger] s.push(items.last())[x].item_type matches ItemType::Event(h) && h < datas.len()) by {
                if x < s.len() {
                    assert(s.push(items.last())[x] == s[x]);
                }
            }
        }
    }
}

/// The rows with dividers end with the last row.
proof fn lemma_dividers_last(datas: Seq<EventData>, r: Seq<Item>, x: Option<i64>)
    requires
        r.len() > 0,
    ensures
        with_dividers(datas, r, x).len() > 0,
        with_dividers(datas, r, x).last() == r.last(),
{
}

/// Every row of events with dividers is one of the events or a divider.
proof fn lemma_rows_of_dividers(datas: Seq<EventData>, r: Seq<Item>, x: Option<i64>, k: int)
    requires
        held_events(datas, r),
        0 <= k < with_dividers(datas, r, x).len(),
    ensures
        (with_dividers(datas, r, x)[k].item_type matches ItemType::Event(h) && h < datas.len())
            || with_dividers(datas, r, x)[k].item_type is DayDivider,
    decreases r.len(),
{
    lemma_held_drop_last(datas, r);
    let w = with_dividers(datas, r.drop_last(), x);
    assert(r[r.len() - 1] == r.last());
    if k < w.len() {
        lemma_rows_of_dividers(datas, r.drop_last(), x, k);
        if starts_day(datas, r, x) {
            assert(w.push(divider_for(datas, r.last())).push(r.last())[k] == w[k]);
        } else {
            assert(w.push(r.last())[k] == w[k]);
        }
    }
}

/// Every known id names a held event.
pub open spec fn ids_held(st: Stage) -> bool {
    forall|k: u64| #[trigger] st.2.contains_key(k) ==> st.2[k] < st.0.len()
}

/// Whether the echo `d`, if it takes over a pending event, keeps its day.
pub open spec fn echo_keeps_day(st: Stage, d: EventData) -> bool {
    (d.transaction_id is Some && st.4.contains_key(d.transaction_id->0) && st.2.contains_key(
        st.4[d.transaction_id->0],
    )) ==> {
        let h = st.2[st.4[d.transaction_id->0]] as int;
        0 <= h < st.0.len() ==> merged(st.0[h], d).day == st.0[h].day
    }
}

/// Whether every echo in `batch` keeps the day of the pending event it takes
/// over.
pub open spec fn echoes_keep_days(st: Stage, batch: Seq<EventData>) -> bool
    decreases batch.len(),
{
    if batch.len() == 0 {
        true
    } else {
        echoes_keep_days(st, batch.drop_last()) && echo_keeps_day(append_fold(st, batch.drop_last()), batch.last())
    }
}

/// The events of `more` have the days of those of `datas`, and those of
/// `datas` are all still there.
pub open spec fn keeps_days(datas: Seq<EventData>, more: Seq<EventData>) -> bool {
    &&& datas.len() <= more.len()
    &&& forall|k: int| 0 <= k < datas.len() ==> #[trigger] more[k].day == datas[k].day
}

proof fn lemma_keeps_days_trans(a: Seq<EventData>, b: Seq<EventData>, c: Seq<EventData>)
    requires
        keeps_days(a, b),
        keeps_days(b, c),
    ensures
        keeps_days(a, c),
{
    assert forall|k: int| 0 <= k < a.len() implies #[trigger] c[k].day == a[k].day by {
        assert(c[k].day == b[k].day);
    }
}

proof fn lemma_held_more(datas: Seq<EventData>, more: Seq<EventData>, r: Seq<Item>)
    requires
        held_events(datas, r),
        datas.len() <= more.len(),
    ensures
        held_events(more, r),
{
}

proof fn lemma_take_new_shape(st: Stage, d: EventData, at_front: bool)
    requires
        held_events(st.0, st.5),
        ids_held(st),
    ensures
        ({
            let s2 = take_new_event(st, d, at_front);
            &&& keeps_days(st.0, s2.0)
            &&& held_events(s2.0, s2.5)
            &&& ids_held(s2)
        }),
{
    let s2 = take_new_event(st, d, at_front);
    assert forall|k: int| 0 <= k < st.0.len() implies #[trigger] s2.0[k].day == st.0[k].day by {}
    assert forall|k: u64| #[trigger] s2.2.contains_key(k) implies s2.2[k] < s2.0.len() by {
        if k != d.event_id {
            assert(st.2.contains_key(k));
        }
    }
    assert forall|x: int| 0 <= x < s2.5.len() implies (#[trigger] s2.5[x].item_type matches ItemType::Event(h) && h < s2.0.len()) by {
        if !is_hidden(d.event) {
            if at_front {
                if x > 0 {
                    assert(s2.5[x] == st.5[x - 1]);
                }
            } else if x < st.5.len() {
                assert(s2.5[x] == st.5[x]);
            }
        }
    }
}

proof fn lemma_prepend_fold_shape(st: Stage, batch: Seq<EventData>)
    requires
        held_events(st.0, st.5),
        ids_held(st),
    ensures
        keeps_days(st.0, prepend_fold(st, batch).0),
        held_events(prepend_fold(st, batch).0, prepend_fold(st, batch).5),
        ids_held(prepend_fold(st, batch)),
    decreases batch.len(),
{
    if batch.len() > 0 {
        lemma_prepend_fold_shape(st, batch.drop_last());
        let s1 = prepend_fold(st, batch.drop_last());
        lemma_take_new_shape(s1, batch.last(), true);
        lemma_keeps_days_trans(st.0, s1.0, prepend_fold(st, batch).0);
    } else {
        assert forall|k: int| 0 <= k < st.0.len() implies #[trigger] st.0[k].day == st.0[k].day by {}
    }
}

proof fn lemma_append_fold_shape(st: Stage, batch: Seq<EventData>)
    requires
        held_events(st.0, st.5),
        ids_held(st),
        echoes_keep_days(st, batch),
    ensures
        keeps_days(st.0, append_fold(st, batch).0),
        held_events(append_fold(st, batch).0, append_fold(st, batch).5),
        ids_held(append_fold(st, batch)),
    decreases batch.len(),
{
    if batch.len() > 0 {
        lemma_append_fold_shape(st, batch.drop_last());
        let s1 = append_fold(st, batch.drop_last());
        let d = batch.last();
        let s2 = append_fold(st, batch);
        if d.transaction_id is Some && s1.4.contains_key(d.transaction_id->0) {
            let pid = s1.4[d.transaction_id->0];
            if s1.2.contains_key(pid) {
                let h = s1.2[pid];
                assert(h < s1.0.len());
                assert forall|k: int| 0 <= k < s1.0.len() implies #[trigger] s2.0[k].day == s1.0[k].day by {}
                assert forall|k: u64| #[trigger] s2.2.contains_key(k) implies s2.2[k] < s2.0.len() by {
                    if k != d.event_id {
                        assert(s1.2.contains_key(k));
                    }
                }
            } else {
                assert forall|k: int| 0 <= k < s1.0.len() implies #[trigger] s2.0[k].day == s1.0[k].day by {}
            }
        } else {
            lemma_take_new_shape(s1, d, false);
        }
        lemma_keeps_days_trans(st.0, s1.0, s2.0);
    } else {
        assert forall|k: int| 0 <= k < st.0.len() implies #[trigger] st.0[k].day == st.0[k].day by {}
    }
}

proof fn lemma_dividers_same_days(d1: Seq<EventData>, d2: Seq<EventData>, r: Seq<Item>, p: Option<i64>)
    requires
        held_events(d1, r),
        keeps_days(d1, d2),
    ensures
        kinds(with_dividers(d1, r, p)) == kinds(with_dividers(d2, r, p)),
        running_day(d1, r, p) == running_day(d2, r, p),
    decreases r.len(),
{
    if r.len() > 0 {
        lemma_held_drop_last(d1, r);
        lemma_dividers_same_days(d1, d2, r.drop_last(), p);
        assert(r[r.len() - 1] == r.last());
        assert(item_day(d1, r.last()) == item_day(d2, r.last()));
        let w1 = with_dividers(d1, r.drop_last(), p);
        let w2 = with_dividers(d2, r.drop_last(), p);
        if starts_day(d1, r, p) {
            assert(kinds(w1.push(divider_for(d1, r.last())).push(r.last())) =~= kinds(w1).push(kind(divider_for(d1, r.last()).item_type)).push(kind(r.last().item_type)));
            assert(kinds(w2.push(divider_for(d2, r.last())).push(r.last())) =~= kinds(w2).push(kind(divider_for(d2, r.last()).item_type)).push(kind(r.last().item_type)));
        } else {
            assert(kinds(w1.push(r.last())) =~= kinds(w1).push(kind(r.last().item_type)));
            assert(kinds(w2.push(r.last())) =~= kinds(w2).push(kind(r.last().item_type)));
        }
    }
}

/// Rows whose dividers stand where the days change still do so when the
/// events they name keep their days.
proof fn lemma_days_divided_more(d1: Seq<EventData>, d2: Seq<EventData>, items: Seq<Item>)
    requires
        days_divided(d1, items),
        keeps_days(d1, d2),
    ensures
        days_divided(d2, items),
{
    lemma_days_basics(d1, items);
    lemma_dividers_same_days(d1, d2, strip_dividers(items), None);
}

/// Older events arriving at the front keep the day dividers where the days
/// change.
pub proof fn lemma_prepend_keeps_days(st: Stage, batch: Seq<EventData>, items: Seq<Item>)
    requires
        st.5.len() == 0,
        ids_held(st),
        days_divided(st.0, items),
    ensures
        ({
            let pf = prepend_fold(st, batch);
            days_divided(pf.0, rows_after_insert(pf.0, items, 0, pf.5))
        }),
{
    let pf = prepend_fold(st, batch);
    lemma_prepend_fold_shape(st, batch);
    lemma_days_divided_more(st.0, pf.0, items);
    lemma_insert_keeps_days(pf.0, items, 0, pf.5);
}

/// Events arriving at the end keep the day dividers where the days change,
/// as long as every echo keeps the day of the pending event it takes over.
pub proof fn lemma_append_keeps_days(st: Stage, batch: Seq<EventData>, items: Seq<Item>)
    requires
        st.5.len() == 0,
        ids_held(st),
        days_divided(st.0, items),
        echoes_keep_days(st, batch),
    ensures
        ({
            let af = append_fold(st, batch);
            days_divided(af.0, rows_after_insert(af.0, items, items.len() as int, af.5))
        }),
{
    let af = append_fold(st, batch);
    lemma_append_fold_shape(st, batch);
    lemma_days_divided_more(st.0, af.0, items);
    lemma_insert_keeps_days(af.0, items, items.len() as int, af.5);
}

/// The stage after one call of `append` with `batch` on a timeline at stage
/// `st` showing `items`, as `append` states it: the events taken in and
/// linked, and no rows left to insert.
pub open spec fn after_append(st: Stage, items: Seq<Item>, batch: Seq<EventData>) -> Stage {
    let f = append_fold(st, batch);
    let rd = with_dividers(f.0, f.5, day_before(f.0, items, items.len() as int));
    let (rels, waiting) = link_items(f.1, f.3, f.2, f.0, rd);
    (f.0, rels, f.2, waiting, f.4, seq![])
}

/// Linking the rows of one event row, with its divider if it gets one, links
/// that event.
proof fn lemma_link_single_row(
    rels: Seq<Seq<usize>>,
    waiting: Map<u64, Seq<u64>>,
    map: Map<u64, usize>,
    datas: Seq<EventData>,
    h: usize,
    x: Option<i64>,
)
    requires
        h < datas.len(),
    ensures
        link_items(rels, waiting, map, datas, with_dividers(datas, seq![event_row(h as int)], x)) == link_one(
            rels,
            waiting,
            map,
            h,
            datas[h as int],
        ),
{
    let r = seq![event_row(h as int)];
    assert(r.drop_last() =~= Seq::<Item>::empty());
    assert(r.last() == event_row(h as int));
    let w = with_dividers(datas, r, x);
    assert(with_dividers(datas, Seq::<Item>::empty(), x) =~= Seq::<Item>::empty());
    if starts_day(datas, r, x) {
        let dv = divider_for(datas, event_row(h as int));
        assert(w =~= seq![dv, event_row(h as int)]);
        assert(w.drop_last() =~= seq![dv]);
        assert(seq![dv].drop_last() =~= Seq::<Item>::empty());
        assert(seq![dv].last() == dv);
        assert(dv.item_type is DayDivider);
        assert(link_items(rels, waiting, map, datas, Seq::<Item>::empty()) == (rels, waiting));
        assert(link_items(rels, waiting, map, datas, seq![dv]) == (rels, waiting));
        assert(w.last() == event_row(h as int));
    } else {
        assert(w =~= seq![event_row(h as int)]);
        assert(w.drop_last() =~= Seq::<Item>::empty());
        assert(link_items(rels, waiting, map, datas, Seq::<Item>::empty()) == (rels, waiting));
        assert(w.last() == event_row(h as int));
    }
}

/// The order in which an event and a hidden event relating to it, such as a
/// reaction, arrive in calls of `append` does not matter: either way the
/// event's related events are exactly the relating one, nothing is left
/// waiting, and the relating event gets no row.
pub proof fn lemma_append_relation_order_free(st: Stage, items: Seq<Item>, t: EventData, r: EventData)
    requires
        st.5.len() == 0,
        st.1.len() == st.0.len(),
        st.0.len() + 2 <= usize::MAX,
        ids_held(st),
        !is_hidden(t.event),
        related_event(t.event) is None,
        is_hidden(r.event),
        related_event(r.event) == Some(t.event_id),
        t.event_id != r.event_id,
        t.transaction_id is None,
        r.transaction_id is None,
        !st.2.contains_key(t.event_id),
        !st.2.contains_key(r.event_id),
        !st.3.contains_key(t.event_id),
        !st.3.contains_key(r.event_id),
    ensures
        ({
            let t_first = after_append(st, items, seq![t]);
            let t_then_r = after_append(t_first, items, seq![r]);
            let r_first = after_append(st, items, seq![r]);
            let r_then_t = after_append(r_first, items, seq![t]);
            &&& t_then_r.1[t_then_r.2[t.event_id] as int] == seq![t_then_r.2[r.event_id]]
            &&& r_then_t.1[r_then_t.2[t.event_id] as int] == seq![r_then_t.2[r.event_id]]
            &&& t_then_r.3 == st.3
            &&& r_then_t.3 == st.3
            &&& append_fold(t_first, seq![r]).5.len() == 0
            &&& append_fold(st, seq![r]).5.len() == 0
        }),
{
    let n = st.0.len();
    let one_t = seq![t];
    let one_r = seq![r];
    assert(one_t.drop_last() =~= Seq::<EventData>::empty());
    assert(one_r.drop_last() =~= Seq::<EventData>::empty());
    assert(one_t.last() == t);
    assert(one_r.last() == r);
    // t first: a row for t, linked to nothing.
    let ft = append_fold(st, one_t);
    assert(append_fold(st, one_t.drop_last()) == st);
    assert(ft == take_new_event(st, t, false));
    assert(ft.5 =~= seq![event_row(n as int)]);
    let xt = day_before(ft.0, items, items.len() as int);
    lemma_link_single_row(ft.1, ft.3, ft.2, ft.0, n as usize, xt);
    assert(ft.0[n as int] == t);
    assert(ft.3 == st.3);
    assert(!ft.3.contains_key(t.event_id));
    assert(link_one(ft.1, ft.3, ft.2, n as usize, t) == (ft.1, ft.3));
    assert(ft.5 == seq![event_row(n as int)]);
    assert(with_dividers(ft.0, ft.5, xt) == with_dividers(ft.0, seq![event_row(n as int)], xt));
    assert(link_items(ft.1, ft.3, ft.2, ft.0, with_dividers(ft.0, ft.5, xt)) == (ft.1, ft.3));
    let t_first = after_append(st, items, one_t);
    assert(t_first.2 == st.2.insert(t.event_id, n as usize));
    assert(t_first.0 == st.0.push(t));
    assert(t_first.1 == ft.1 && t_first.3 == st.3);
    // then r: hidden, linked at once to t.
    let fr = append_fold(t_first, one_r);
    assert(append_fold(t_first, one_r.drop_last()) == t_first);
    assert(fr == take_new_event(t_first, r, false));
    assert(fr.5.len() == 0);
    assert(with_dividers(fr.0, fr.5, day_before(fr.0, items, items.len() as int)) =~= Seq::<Item>::empty());
    assert(fr.2 == t_first.2.insert(r.event_id, (n + 1) as usize));
    assert(fr.2.contains_key(t.event_id) && fr.2[t.event_id] == n);
    let t_then_r = after_append(t_first, items, one_r);
    assert(t_then_r.2 == fr.2);
    assert(t_then_r.2[t.event_id] == n);
    assert(t_then_r.2[r.event_id] == n + 1);
    assert(t_then_r.1[n as int] =~= seq![(n + 1) as usize]);
    // r first: hidden, waiting under t's id.
    let gr = append_fold(st, one_r);
    assert(append_fold(st, one_r.drop_last()) == st);
    assert(gr == take_new_event(st, r, false));
    assert(gr.5.len() == 0);
    assert(with_dividers(gr.0, gr.5, day_before(gr.0, items, items.len() as int)) =~= Seq::<Item>::empty());
    let r_first = after_append(st, items, one_r);
    assert(r_first.3 =~= st.3.insert(t.event_id, seq![r.event_id]));
    // then t: a row, which takes the waiting r.
    let gt = append_fold(r_first, one_t);
    assert(append_fold(r_first, one_t.drop_last()) == r_first);
    assert(gt == take_new_event(r_first, t, false));
    assert(gt.5 =~= seq![event_row((n + 1) as int)]);
    let xr = day_before(gt.0, items, items.len() as int);
    lemma_link_single_row(gt.1, gt.3, gt.2, gt.0, (n + 1) as usize, xr);
    let r_then_t = after_append(r_first, items, one_t);
    assert(r_then_t.2[t.event_id] == n + 1);
    assert(r_then_t.2[r.event_id] == n);
    let ids = seq![r.event_id];
    assert(ids.drop_last() =~= Seq::<u64>::empty());
    assert(ids.last() == r.event_id);
    assert(gt.2.contains_key(r.event_id) && gt.2[r.event_id] == n);
    assert(resolve_ids(Seq::<u64>::empty(), gt.2) == Seq::<usize>::empty());
    assert(resolve_ids(ids, gt.2) =~= seq![n as usize]);
    assert(r_then_t.1[(n + 1) as int] =~= seq![n as usize]);
    assert(r_then_t.3 =~= st.3);
}

} // verus!
