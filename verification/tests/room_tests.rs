use fractal::highlight_flags::{HIGHLIGHT_HIGHLIGHT, HIGHLIGHT_NONE};
use fractal::room::{
    has_visible_char, InviteFailure, MembershipKind, MoveFailure, Room, RoomOp, RoomUpdate, StoreOutcome, StrippedEvent, SyncEvent,
    SyncEventKind, Tag,
};
use fractal::power_levels::{PowerLevels, PowerLevelsContent};
use fractal::room_details::{chosen_avatar, details_controls, save_details, DetailsControls, DetailsTitle, RoomDetails};
use fractal::room_list::{RoomList, RoomSync};
use fractal::event::{EventData, MatrixEvent, MessageEvent, MessageType};
use fractal::timeline::{ListChange as TimelineChange, Timeline};
use fractal::room_type::RoomType;
use fractal::state_row::Membership;

fn joined_room() -> Room {
    let mut r = Room::new();
    assert!(r.set_matrix_room(MembershipKind::Joined, 0, None));
    r
}

#[test]
fn set_matrix_room_reports_changes() {
    let mut r = Room::new();
    assert!(r.set_matrix_room(MembershipKind::Invited, 0, None));
    assert!(!r.set_matrix_room(MembershipKind::Invited, 3, None));
    assert!(r.set_matrix_room(MembershipKind::Joined, 3, None));
}

#[test]
fn category_moves_of_a_joined_room() {
    let mut r = joined_room();
    assert_eq!(r.category(), RoomType::Normal);
    assert_eq!(r.set_category(RoomType::Favorite), Some(vec![RoomOp::SetTag(Tag::Favorite)]));
    assert_eq!(r.category(), RoomType::Favorite);
    assert_eq!(
        r.set_category(RoomType::LowPriority),
        Some(vec![RoomOp::SetTag(Tag::LowPriority), RoomOp::RemoveTag(Tag::Favorite)])
    );
    assert_eq!(r.set_category(RoomType::Normal), Some(vec![RoomOp::RemoveTag(Tag::LowPriority)]));
    assert_eq!(r.set_category(RoomType::Left), Some(vec![RoomOp::Leave]));
}

#[test]
fn refused_category_moves() {
    let mut r = joined_room();
    // Same category, invite category.
    assert_eq!(r.set_category(RoomType::Normal), None);
    assert_eq!(r.set_category(RoomType::Invited), None);
    assert_eq!(r.category(), RoomType::Normal);
    // An upgraded room stays where it is.
    assert_eq!(r.set_category(RoomType::Outdated), Some(Vec::new()));
    assert_eq!(r.set_category(RoomType::Favorite), None);
    assert_eq!(r.category(), RoomType::Outdated);
}

#[test]
fn category_moves_of_invited_and_left_rooms() {
    let mut r = Room::new();
    r.set_matrix_room(MembershipKind::Invited, 0, None);
    r.load_category();
    assert_eq!(r.category(), RoomType::Invited);
    assert_eq!(r.set_category(RoomType::Favorite), Some(vec![RoomOp::AcceptInvitation]));
    let mut l = Room::new();
    l.set_matrix_room(MembershipKind::Invited, 0, None);
    l.load_category();
    assert_eq!(l.set_category(RoomType::Left), Some(vec![RoomOp::RejectInvitation]));
    let mut left = Room::new();
    left.set_matrix_room(MembershipKind::Left, 0, None);
    left.load_category();
    assert_eq!(left.category(), RoomType::Left);
    assert_eq!(left.set_category(RoomType::Normal), Some(vec![RoomOp::Join]));
}

#[test]
fn moved_category_loads_back_from_tags() {
    let mut r = joined_room();
    r.set_category(RoomType::Favorite);
    assert!(r.load_category());
    r.apply_tags(Some((true, false)));
    assert_eq!(r.category(), RoomType::Favorite);
    r.apply_tags(Some((false, true)));
    assert_eq!(r.category(), RoomType::LowPriority);
    r.apply_tags(None);
    assert_eq!(r.category(), RoomType::Normal);
}

#[test]
fn forget_only_left_rooms() {
    let mut r = Room::new();
    r.set_matrix_room(MembershipKind::Left, 0, None);
    assert!(!r.forget());
    r.load_category();
    assert!(r.forget());
}

#[test]
fn highlight_follows_the_count() {
    let mut r = Room::new();
    r.set_matrix_room(MembershipKind::Joined, 0, None);
    assert_eq!(r.highlight().bits, HIGHLIGHT_NONE);
    r.set_matrix_room(MembershipKind::Joined, 2, None);
    assert_eq!(r.highlight().bits, HIGHLIGHT_HIGHLIGHT);
}

#[test]
fn topic_needs_something_to_show() {
    let mut r = Room::new();
    r.set_matrix_room(MembershipKind::Joined, 0, Some(" \t\u{a0} ".to_string()));
    assert_eq!(r.topic(), None);
    r.set_matrix_room(MembershipKind::Joined, 0, Some(" hello ".to_string()));
    assert_eq!(r.topic(), Some(" hello ".to_string()));
    assert!(has_visible_char("x"));
    assert!(!has_visible_char(""));
}

#[test]
fn store_name_and_topic() {
    let mut r = joined_room();
    r.set_display_name(Some("Room".to_string()));
    assert_eq!(r.store_room_name("Room"), StoreOutcome::Unchanged);
    assert_eq!(r.store_room_name("New"), StoreOutcome::Send);
    let long = "x".repeat(256);
    assert_eq!(r.store_room_name(&long), StoreOutcome::Invalid);
    assert_eq!(r.store_room_name(&"x".repeat(255)), StoreOutcome::Send);
    assert_eq!(r.store_topic("topic"), StoreOutcome::Send);
    let mut invited = Room::new();
    invited.set_matrix_room(MembershipKind::Invited, 0, Some("t".to_string()));
    assert_eq!(invited.store_room_name("New"), StoreOutcome::NotJoined);
    assert_eq!(invited.store_topic("t"), StoreOutcome::Unchanged);
    assert_eq!(invited.store_topic("u"), StoreOutcome::NotJoined);
}

#[test]
fn append_events_updates_and_latest_change() {
    let mut r = joined_room();
    let batch = vec![
        Some(SyncEvent { kind: SyncEventKind::Member(Membership::Join), timestamp: 500 }),
        None,
        Some(SyncEvent { kind: SyncEventKind::Topic, timestamp: 100 }),
        Some(SyncEvent { kind: SyncEventKind::Other, timestamp: 300 }),
        Some(SyncEvent { kind: SyncEventKind::PowerLevels, timestamp: 200 }),
    ];
    let updates = r.append_events(&batch);
    assert_eq!(updates, vec![RoomUpdate::UpdateMember(0), RoomUpdate::NotifyTopic, RoomUpdate::UpdatePowerLevels(4)]);
    // Joins do not count as changes.
    assert_eq!(r.latest_change(), Some(300));
    r.append_events(&vec![Some(SyncEvent { kind: SyncEventKind::Other, timestamp: 50 })]);
    assert_eq!(r.latest_change(), Some(300));
}

#[test]
fn inviter_is_found_from_the_invite() {
    let mut r = Room::new();
    r.set_matrix_room(MembershipKind::Invited, 0, None);
    let events = vec![
        StrippedEvent { sender: "@carol:x".to_string(), member: None },
        StrippedEvent { sender: "@bob:x".to_string(), member: Some((Membership::Invite, "@alice:x".to_string())) },
        StrippedEvent { sender: "@bob:x".to_string(), member: Some((Membership::Join, "@bob:x".to_string())) },
    ];
    assert_eq!(r.handle_invite_events(&events, "@alice:x"), Some(1));
    assert_eq!(r.inviter(), Some("@bob:x".to_string()));
}

#[test]
fn successor_makes_the_room_outdated() {
    let mut r = joined_room();
    assert!(!r.load_successor(None));
    assert!(r.load_successor(Some("!new:x".to_string())));
    assert_eq!(r.category(), RoomType::Outdated);
    assert_eq!(r.successor(), Some("!new:x".to_string()));
    assert!(!r.load_successor(Some("!other:x".to_string())));
    assert!(r.load_predecessor(Some("!old:x".to_string())));
    assert!(!r.load_predecessor(Some("!older:x".to_string())));
    assert_eq!(r.predecessor(), Some("!old:x".to_string()));
}

#[test]
fn invite_failures_count() {
    let r = joined_room();
    assert_eq!(r.invite(&vec![true, true]), None);
    assert_eq!(r.invite(&vec![true, false]), Some((1, InviteFailure::One)));
    assert_eq!(r.invite(&vec![false, true, false]), Some((0, InviteFailure::Two)));
    assert_eq!(r.invite(&vec![false, false, false]), Some((0, InviteFailure::Many)));
    let mut left = Room::new();
    left.set_matrix_room(MembershipKind::Left, 0, None);
    assert_eq!(left.invite(&vec![false]), None);
}

fn sync(id: &str) -> RoomSync {
    RoomSync { room_id: id.to_string(), highlight_count: 0, topic: None }
}

#[test]
fn room_list_keeps_rooms_in_order() {
    let mut l = RoomList::new();
    assert_eq!(l.load(vec!["!a".to_string(), "!b".to_string()]), Some((0, 2)));
    assert_eq!(l.n_items(), 2);
    assert!(l.contains_key("!b"));
    assert_eq!(l.position("!b"), Some(1));
    let (added, changed) = l.handle_response_rooms(vec![sync("!c")], vec![sync("!a")], vec![]);
    assert_eq!(added, Some((2, 1)));
    assert_eq!(changed, vec![true, true]);
    assert_eq!(l.get("!c").unwrap().category(), RoomType::Normal);
    assert_eq!(l.remove("!a"), Some(0));
    assert!(!l.contains_key("!a"));
    assert!(l.get("!a").is_none());
    assert_eq!(l.remove("!a"), None);
    assert_eq!(l.position("!c"), Some(1));
}

#[test]
fn room_list_sync_of_known_rooms_adds_nothing() {
    let mut l = RoomList::new();
    l.load(vec!["!a".to_string()]);
    let (added, changed) = l.handle_response_rooms(vec![], vec![sync("!a")], vec![sync("!a")]);
    assert_eq!(added, None);
    assert_eq!(changed, vec![true, true]);
    assert_eq!(l.n_items(), 1);
}

#[test]
fn room_details_controls_and_editing() {
    let mut levels = PowerLevels::new();
    let mut content = PowerLevelsContent::new();
    content.events.push(("m.room.topic".to_string(), 20));
    levels.update_from_event(content);
    assert_eq!(
        details_controls(&levels, 0, true),
        DetailsControls { avatar_edit_visible: false, avatar_remove_visible: false, edit_toggle_visible: false }
    );
    assert_eq!(
        details_controls(&levels, 20, true),
        DetailsControls { avatar_edit_visible: false, avatar_remove_visible: false, edit_toggle_visible: true }
    );
    assert_eq!(
        details_controls(&levels, 50, false),
        DetailsControls { avatar_edit_visible: true, avatar_remove_visible: false, edit_toggle_visible: true }
    );
    assert!(details_controls(&levels, 100, true).avatar_remove_visible);

    let mut d = RoomDetails::new();
    assert_eq!(d.edit_label(), "Edit Details");
    assert!(!d.set_editing(true));
    assert_eq!(d.edit_label(), "Save Details");
    assert!(d.name_entry_activated());
    assert!(!d.editing());
    assert!(!d.name_entry_activated());
    d.present_invite_subpage();
    assert_eq!(d.title(), DetailsTitle::InviteNewMembers);
    d.close_invite_subpage();
    assert_eq!(d.title(), DetailsTitle::RoomDetails);

    let r = joined_room();
    assert_eq!(save_details(&r, "New name", "New topic"), (StoreOutcome::Send, StoreOutcome::Send));
    assert_eq!(chosen_avatar(true, Some("a.png".to_string())), Some("a.png".to_string()));
    assert_eq!(chosen_avatar(false, Some("a.png".to_string())), None);
}

#[test]
fn failed_category_request_loads_the_category_again() {
    let mut r = joined_room();
    r.set_category(RoomType::Favorite);
    let (failure, fetch_tags) = r.category_request_failed(RoomType::Normal, RoomType::Favorite);
    assert_eq!(failure, MoveFailure { from: RoomType::Normal, to: RoomType::Favorite });
    assert!(fetch_tags);
    let mut i = Room::new();
    i.set_matrix_room(MembershipKind::Invited, 0, None);
    let (_, fetch_tags) = i.category_request_failed(RoomType::Invited, RoomType::Normal);
    assert!(!fetch_tags);
    assert_eq!(i.category(), RoomType::Invited);
}

#[test]
fn invites_are_answered_only_in_invited_rooms() {
    let mut i = Room::new();
    i.set_matrix_room(MembershipKind::Invited, 0, None);
    assert_eq!(i.accept_invite(), Some(RoomOp::AcceptInvitation));
    assert_eq!(i.reject_invite(), Some(RoomOp::RejectInvitation));
    assert_eq!(joined_room().accept_invite(), None);
    assert_eq!(joined_room().reject_invite(), None);
}

#[test]
fn synced_batch_reaches_room_and_timeline() {
    let mut r = joined_room();
    let mut t = Timeline::new();
    let data = EventData {
        event_id: 1,
        sender: 7,
        timestamp: 864_001,
        day: 10,
        transaction_id: None,
        event: Some(MatrixEvent::Message(MessageEvent::RoomMessage { msgtype: MessageType::Text, relates_to: None })),
    };
    let (updates, change) = r.append_to_timeline(&mut t, &vec![None], vec![data]);
    assert!(updates.is_empty());
    assert_eq!(change, Some(TimelineChange { position: 0, removed: 0, added: 2 }));
    assert_eq!(t.n_items(), 2);
    let (_, change) = r.append_to_timeline(&mut t, &vec![], vec![]);
    assert_eq!(change, None);
}
