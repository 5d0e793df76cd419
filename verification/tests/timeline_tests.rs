use fractal::event::{EventData, MatrixEvent, MessageEvent, MessageType, Relation, StateEventType};
use fractal::timeline::{ItemType, ListChange, PreviousEvents, PreviousEventsRequest, Timeline};

fn text(id: u64, sender: u64, day: i64) -> EventData {
    EventData {
        event_id: id,
        sender,
        timestamp: day * 86_400 + id as i64,
        day,
        transaction_id: None,
        event: Some(MatrixEvent::Message(MessageEvent::RoomMessage { msgtype: MessageType::Text, relates_to: None })),
    }
}

fn reaction(id: u64, sender: u64, day: i64, to: u64, key: &str) -> EventData {
    EventData {
        event_id: id,
        sender,
        timestamp: day * 86_400 + id as i64,
        day,
        transaction_id: None,
        event: Some(MatrixEvent::Message(MessageEvent::Reaction { relates_to: to, key: key.to_string() })),
    }
}

fn state(id: u64, sender: u64, day: i64, t: StateEventType) -> EventData {
    EventData {
        event_id: id,
        sender,
        timestamp: day * 86_400 + id as i64,
        day,
        transaction_id: None,
        event: Some(MatrixEvent::State(t)),
    }
}

fn kinds(t: &Timeline) -> Vec<ItemType> {
    (0..t.n_items()).map(|i| t.item(i).unwrap().item_type).collect()
}

fn headers(t: &Timeline) -> Vec<bool> {
    (0..t.n_items()).map(|i| t.item(i).unwrap().show_header).collect()
}

#[test]
fn new_timeline_is_empty() {
    let t = Timeline::new();
    assert!(t.is_empty());
    assert_eq!(t.n_items(), 0);
    assert!(!t.loading());
    assert!(!t.is_complete());
    assert_eq!(t.oldest_event(), None);
}

#[test]
fn append_nothing_changes_nothing() {
    let mut t = Timeline::new();
    assert_eq!(t.append(Vec::new()), None);
    assert_eq!(t.n_items(), 0);
}

#[test]
fn append_adds_day_divider_and_headers() {
    let mut t = Timeline::new();
    let change = t.append(vec![text(1, 7, 10), text(2, 7, 10), text(3, 8, 10)]);
    assert_eq!(change, Some(ListChange { position: 0, removed: 0, added: 4 }));
    assert_eq!(
        kinds(&t),
        vec![
            ItemType::DayDivider { day: 10, timestamp: 10 * 86_400 + 1 },
            ItemType::Event(0),
            ItemType::Event(1),
            ItemType::Event(2),
        ]
    );
    // The second message of the same sender hides its header.
    assert_eq!(headers(&t), vec![false, true, false, true]);
}

#[test]
fn new_day_gets_its_own_divider() {
    let mut t = Timeline::new();
    t.append(vec![text(1, 7, 10)]);
    let change = t.append(vec![text(2, 7, 11)]);
    assert_eq!(change, Some(ListChange { position: 2, removed: 0, added: 2 }));
    assert_eq!(
        kinds(&t),
        vec![
            ItemType::DayDivider { day: 10, timestamp: 10 * 86_400 + 1 },
            ItemType::Event(0),
            ItemType::DayDivider { day: 11, timestamp: 11 * 86_400 + 2 },
            ItemType::Event(1),
        ]
    );
}

#[test]
fn reaction_is_hidden_and_linked() {
    let mut t = Timeline::new();
    t.append(vec![text(1, 7, 10), reaction(2, 8, 10, 1, "👍")]);
    // The reaction gets no row.
    assert_eq!(t.n_items(), 2);
    let target = t.event_by_id(1).unwrap();
    let r = t.event_by_id(2).unwrap();
    assert_eq!(t.relates_to(target), &vec![r]);
}

#[test]
fn reaction_before_its_target_is_linked_later() {
    let mut t = Timeline::new();
    t.append(vec![reaction(2, 8, 10, 1, "👍")]);
    assert_eq!(t.n_items(), 0);
    t.append(vec![text(1, 7, 10)]);
    let target = t.event_by_id(1).unwrap();
    let r = t.event_by_id(2).unwrap();
    assert_eq!(t.relates_to(target), &vec![r]);
}

#[test]
fn state_events_show_but_hidden_types_do_not() {
    let mut t = Timeline::new();
    t.append(vec![state(1, 7, 10, StateEventType::RoomMember), state(2, 7, 10, StateEventType::RoomTopic)]);
    assert_eq!(kinds(&t), vec![ItemType::DayDivider { day: 10, timestamp: 10 * 86_400 + 1 }, ItemType::Event(0)]);
    assert_eq!(headers(&t), vec![false, false]);
}

#[test]
fn pending_event_is_replaced_by_its_echo() {
    let mut t = Timeline::new();
    let mut pending = text(100, 7, 10);
    pending.transaction_id = Some(5);
    let change = t.append_pending(5, pending);
    assert!(change.is_some());
    assert_eq!(t.n_items(), 2);
    let mut echo = text(1, 7, 10);
    echo.transaction_id = Some(5);
    let change = t.append(vec![echo]);
    // The echo takes the place of the pending event: no new row.
    assert_eq!(change, Some(ListChange { position: 2, removed: 0, added: 0 }));
    assert_eq!(t.n_items(), 2);
    assert!(t.event_by_id(1).is_some());
    assert_eq!(t.event_by_id(1), Some(0));
    assert!(t.event_by_id(100).is_none());
}

#[test]
fn load_previous_events_puts_spinner_first() {
    let mut t = Timeline::new();
    t.append(vec![text(5, 7, 10)]);
    let request = t.load_previous_events().unwrap();
    assert_eq!(request, PreviousEventsRequest { from: Some(5) });
    assert!(t.loading());
    assert_eq!(t.item(0).unwrap().item_type, ItemType::LoadingSpinner);
    // A second request while loading is refused.
    assert_eq!(t.load_previous_events(), None);
}

#[test]
fn previous_events_are_prepended_without_the_start() {
    let mut t = Timeline::new();
    t.append(vec![text(5, 7, 10)]);
    let request = t.load_previous_events().unwrap();
    // Newest first; the first is the event the request started from.
    let page = vec![text(5, 7, 10), text(4, 8, 10), text(3, 8, 10)];
    t.handle_previous_events(request, PreviousEvents::Loaded(page));
    assert!(!t.loading());
    assert!(!t.is_complete());
    assert_eq!(t.oldest_event(), Some(3));
    assert_eq!(t.n_items(), 4);
    assert_eq!(t.item(0).unwrap().item_type, ItemType::DayDivider { day: 10, timestamp: 10 * 86_400 + 3 });
    let first = t.item(1).unwrap().item_type;
    match first {
        ItemType::Event(h) => assert_eq!(t.event(h).event_id, 3),
        _ => panic!("expected an event"),
    }
}

#[test]
fn reaching_room_creation_completes_the_timeline() {
    let mut t = Timeline::new();
    t.append(vec![text(5, 7, 10)]);
    let request = t.load_previous_events().unwrap();
    let page = vec![text(5, 7, 10), state(1, 7, 10, StateEventType::RoomCreate)];
    t.handle_previous_events(request, PreviousEvents::Loaded(page));
    assert!(t.is_complete());
    assert_eq!(t.load_previous_events(), None);
}

#[test]
fn failed_previous_events_remove_the_spinner() {
    let mut t = Timeline::new();
    t.append(vec![text(5, 7, 10)]);
    let request = t.load_previous_events().unwrap();
    t.handle_previous_events(request, PreviousEvents::Failed);
    assert!(!t.loading());
    assert_eq!(t.n_items(), 2);
    assert_ne!(t.item(0).unwrap().item_type, ItemType::LoadingSpinner);
}

#[test]
fn reply_is_shown() {
    let mut t = Timeline::new();
    let mut reply = text(2, 8, 10);
    reply.event = Some(MatrixEvent::Message(MessageEvent::RoomMessage {
        msgtype: MessageType::Text,
        relates_to: Some(Relation::Reply(1)),
    }));
    t.append(vec![text(1, 7, 10), reply]);
    assert_eq!(t.n_items(), 3);
}

#[test]
fn prepend_keeps_headers_consistent() {
    let mut t = Timeline::new();
    t.append(vec![text(3, 7, 10)]);
    let change = t.prepend(vec![text(2, 7, 10), text(1, 7, 10)]);
    assert_eq!(change.position, 0);
    // Rows: divider, 1, 2, 3 — only the first message shows its header.
    assert_eq!(headers(&t), vec![false, true, false, false]);
}

#[test]
fn day_dividers_stand_where_days_change() {
    let mut t = Timeline::new();
    t.append(vec![text(5, 7, 10), text(6, 7, 11)]);
    t.append(vec![text(7, 7, 11), text(8, 7, 12)]);
    let day = |d: i64, id: i64| ItemType::DayDivider { day: d, timestamp: d * 86_400 + id };
    assert_eq!(
        kinds(&t),
        vec![day(10, 5), ItemType::Event(0), day(11, 6), ItemType::Event(1), ItemType::Event(2), day(12, 8), ItemType::Event(3)]
    );
    // Older events of the first day: the divider of that day moves before them.
    t.prepend(vec![text(4, 7, 10), text(3, 7, 9)]);
    assert_eq!(
        kinds(&t),
        vec![
            day(9, 3),
            ItemType::Event(5),
            day(10, 4),
            ItemType::Event(4),
            ItemType::Event(0),
            day(11, 6),
            ItemType::Event(1),
            ItemType::Event(2),
            day(12, 8),
            ItemType::Event(3),
        ]
    );
}
