use fractal::content_type::ContentType;
use fractal::event::{clock_format, event_actions, event_source, ClockFormat, EventActionSet};
use fractal::event::{EventData, MatrixEvent, MessageEvent, MessageEventType, MessageType, Relation, StateEventType};
use fractal::highlight_flags::HighlightFlags;
use fractal::invitee_list::{invite_page, InvitePage, Invitee, InviteeList, InviteeListState};
use fractal::member_role::MemberRole;
use fractal::power_levels::{min_level_for_room_action, PowerLevels, PowerLevelsContent, RoomAction};
use fractal::public_room_list::{explore_page, network_menu, ExplorePage, ListChange, PublicRoomList, RoomNetwork};
use fractal::room_creation::{create_room, handle_error, validate_input, AddressError};
use fractal::room_type::{CategoryType, RoomType};

fn user(id: u64, name: &str) -> Invitee {
    Invitee { user_id: id, display_name: Some(name.to_string()), avatar_url: None }
}

#[test]
fn invitee_search_flow() {
    let mut l = InviteeList::new();
    assert_eq!(l.state(), InviteeListState::Initial);
    assert_eq!(l.set_search_term(Some("bo".to_string())), Some("bo".to_string()));
    assert_eq!(l.state(), InviteeListState::Loading);
    // The same term starts no new search.
    assert_eq!(l.set_search_term(Some("bo".to_string())), None);
    // A stale answer is dropped.
    l.finish_search("b", Some(vec![user(1, "Bob")]), &vec![]);
    assert_eq!(l.state(), InviteeListState::Loading);
    l.finish_search("bo", Some(vec![user(1, "Bob"), user(2, "Boris")]), &vec![2]);
    assert_eq!(l.state(), InviteeListState::Matching);
    assert_eq!(l.n_items(), 1);
    assert_eq!(l.item(0).unwrap().user_id, 1);
    // An empty term gives up the search.
    assert_eq!(l.set_search_term(Some(String::new())), None);
}

#[test]
fn invitee_search_errors_and_empty_results() {
    let mut l = InviteeList::new();
    l.set_search_term(Some("x".to_string()));
    l.finish_search("x", Some(Vec::new()), &vec![]);
    assert_eq!(l.state(), InviteeListState::NoMatching);
    l.set_search_term(Some("y".to_string()));
    l.finish_search("y", None, &vec![]);
    assert_eq!(l.state(), InviteeListState::Error);
    assert_eq!(l.n_items(), 0);
    l.set_search_term(None);
    assert_eq!(l.state(), InviteeListState::Error);
}

#[test]
fn invitees_are_picked_and_dropped() {
    let mut l = InviteeList::new();
    assert!(!l.has_selected());
    l.add_invitee(user(1, "Bob"));
    l.add_invitee(user(2, "Carol"));
    l.add_invitee(user(1, "Bobby"));
    assert!(l.has_selected());
    let ids: Vec<u64> = l.invitees().iter().map(|u| u.user_id).collect();
    assert_eq!(ids, vec![2, 1]);
    assert!(l.is_invited(1));
    assert!(l.remove_invitee(1));
    assert!(!l.is_invited(1));
    assert!(!l.remove_invitee(1));
    // A search result that is a member is no longer to be invited.
    l.set_search_term(Some("c".to_string()));
    l.finish_search("c", Some(vec![user(2, "Carol")]), &vec![2]);
    assert!(!l.has_selected());
}

#[test]
fn search_results_update_picked_users() {
    let mut l = InviteeList::new();
    l.add_invitee(user(1, "Bob"));
    l.set_search_term(Some("b".to_string()));
    l.finish_search("b", Some(vec![user(1, "Robert")]), &vec![]);
    assert_eq!(l.invitees()[0].display_name, Some("Robert".to_string()));
}

#[test]
fn public_rooms_pages() {
    let mut l = PublicRoomList::new();
    assert!(l.empty());
    assert!(l.complete());
    let request = l.search(Some("rust".to_string()), None, Some("all".to_string())).unwrap();
    assert_eq!(request.since, None);
    assert_eq!(request.limit, 20);
    assert!(matches!(request.network, RoomNetwork::All));
    assert!(l.loading());
    // The same search again sends nothing.
    assert!(l.search(Some("rust".to_string()), None, Some("all".to_string())).is_none());
    let change = l.handle_public_rooms_response(Some("next".to_string()), Some(42), vec!["!a".to_string(), "!b".to_string()]);
    assert_eq!(change, Some(ListChange { position: 0, removed: 0, added: 3 }));
    assert_eq!(l.n_items(), 3);
    assert_eq!(l.item(2), Some(None));
    assert_eq!(l.total_room_count_estimate(), Some(42));
    assert!(!l.loading() && !l.empty() && !l.complete());
    let next = l.load_public_rooms(false).unwrap();
    assert_eq!(next.since, Some("next".to_string()));
    assert!(l.load_public_rooms(false).is_none());
    let change = l.handle_public_rooms_response(None, None, vec!["!c".to_string()]);
    assert_eq!(change, Some(ListChange { position: 2, removed: 1, added: 1 }));
    assert_eq!(l.n_items(), 3);
    assert_eq!(l.item(2), Some(Some("!c".to_string())));
    assert!(l.complete());
    // Nothing more to load.
    assert!(l.load_public_rooms(false).is_none());
}

#[test]
fn public_rooms_validity_and_networks() {
    let mut l = PublicRoomList::new();
    let r = l.search(None, Some("example.org".to_string()), Some("irc".to_string())).unwrap();
    assert!(matches!(r.network, RoomNetwork::ThirdParty(ref n) if n == "irc"));
    assert_eq!(r.server, Some("example.org".to_string()));
    assert!(l.is_valid_response(&None, &Some("example.org".to_string()), &Some("irc".to_string())));
    assert!(!l.is_valid_response(&None, &None, &Some("irc".to_string())));
    let r = l.search(None, None, Some("matrix".to_string())).unwrap();
    assert!(matches!(r.network, RoomNetwork::Matrix));
    l.handle_error();
    assert!(l.empty());
}

#[test]
fn room_creation_checks() {
    let v = validate_input("Room", true, "anything:#");
    assert!(v.name_valid && v.create_enabled && v.address.is_none());
    let v = validate_input("", true, "");
    assert!(!v.name_valid && !v.name_too_long && !v.create_enabled);
    let v = validate_input(&"n".repeat(256), true, "");
    assert!(!v.name_valid && v.name_too_long);
    let v = validate_input("Room", false, "a:b");
    assert_eq!(v.address.unwrap().error, Some(AddressError::Colon));
    assert!(!v.create_enabled);
    let v = validate_input("Room", false, "#a");
    assert_eq!(v.address.unwrap().error, Some(AddressError::Hash));
    let v = validate_input("Room", false, &"a".repeat(256));
    assert_eq!(v.address.unwrap().error, Some(AddressError::TooLong));
    let v = validate_input("Room", false, "");
    assert_eq!(v.address.unwrap().error, None);
    assert!(!v.create_enabled);
    let v = validate_input("Room", false, "rust");
    assert!(v.address.unwrap().valid && v.create_enabled);
    let r = create_room("Room", false, "rust");
    assert_eq!(r.alias, Some("#rust".to_string()));
    assert!(r.public);
    assert_eq!(create_room("Room", true, "rust").alias, None);
    assert_eq!(handle_error(true), Some(AddressError::Taken));
    assert_eq!(handle_error(false), None);
}

#[test]
fn member_roles_from_power_levels() {
    assert_eq!(MemberRole::from_power_level(100), MemberRole::ADMIN);
    assert_eq!(MemberRole::from_power_level(50), MemberRole::MOD);
    assert_eq!(MemberRole::from_power_level(49), MemberRole::PEASANT);
    assert!(MemberRole::ADMIN.is_admin() && !MemberRole::ADMIN.is_mod());
    assert!(MemberRole::PEASANT.is_peasant());
    assert_eq!(MemberRole::MOD.label_msgid(), "Moderator");
}

#[test]
fn power_levels_for_actions() {
    let mut content = PowerLevelsContent::new();
    content.events.push(("m.room.name".to_string(), 75));
    assert_eq!(min_level_for_room_action(&content, &RoomAction::Ban), 50);
    assert_eq!(min_level_for_room_action(&content, &RoomAction::Invite), 0);
    assert_eq!(min_level_for_room_action(&content, &RoomAction::StateEvent("m.room.name".to_string())), 75);
    assert_eq!(min_level_for_room_action(&content, &RoomAction::StateEvent("m.room.topic".to_string())), 50);
    assert_eq!(min_level_for_room_action(&content, &RoomAction::MessageEvent("m.room.message".to_string())), 0);
    let mut levels = PowerLevels::new();
    assert!(!levels.is_allowed(0, &RoomAction::Kick));
    levels.update_from_event(content);
    assert!(levels.is_allowed(75, &RoomAction::StateEvent("m.room.name".to_string())));
    assert!(!levels.is_allowed(74, &RoomAction::StateEvent("m.room.name".to_string())));
}

#[test]
fn room_types_and_categories() {
    assert!(RoomType::Invited.can_change_to(&RoomType::Favorite));
    assert!(!RoomType::Normal.can_change_to(&RoomType::Invited));
    assert!(!RoomType::Outdated.can_change_to(&RoomType::Normal));
    assert_eq!(RoomType::try_from_u32(3), Ok(RoomType::LowPriority));
    assert_eq!(RoomType::try_from_u32(9), Err(9));
    assert_eq!(RoomType::Left.to_u32(), 4);
    assert_eq!(RoomType::try_from_category(&CategoryType::Favorite), Ok(RoomType::Favorite));
    assert_eq!(
        RoomType::try_from_category(&CategoryType::NoCategory),
        Err("CategoryType::None cannot be a RoomType")
    );
    assert_eq!(RoomType::Outdated.category(), CategoryType::Outdated);
}

#[test]
fn highlight_flags_and_content_types() {
    let hb = HighlightFlags::highlight_bold();
    assert!(hb.contains(HighlightFlags::bold()));
    assert!(hb.contains(HighlightFlags::highlight()));
    assert!(!HighlightFlags::bold().contains(HighlightFlags::highlight()));
    assert_eq!(HighlightFlags::default_flags(), HighlightFlags::none());
    assert_eq!(ContentType::default_type(), ContentType::NoSelection);
    assert_eq!(ContentType::Explore.label_msgid(), "Explore");
}

fn data(event: Option<MatrixEvent>) -> EventData {
    EventData { event_id: 1, sender: 1, timestamp: 0, day: 0, transaction_id: None, event }
}

#[test]
fn events_hidden_and_related() {
    let reply = data(Some(MatrixEvent::Message(MessageEvent::RoomMessage {
        msgtype: MessageType::Text,
        relates_to: Some(Relation::Reply(9)),
    })));
    assert_eq!(reply.related_matrix_event(), Some(9));
    assert!(!reply.is_hidden_event());
    assert!(reply.can_hide_header());
    let edit = data(Some(MatrixEvent::Message(MessageEvent::RoomMessage {
        msgtype: MessageType::Text,
        relates_to: Some(Relation::Replacement(9)),
    })));
    assert!(edit.is_hidden_event());
    let call = data(Some(MatrixEvent::Message(MessageEvent::Other(MessageEventType::CallInvite))));
    assert!(call.is_hidden_event());
    let sticker = data(Some(MatrixEvent::RedactedMessage(MessageEventType::Sticker)));
    assert!(sticker.is_hidden_event());
    let image = data(Some(MatrixEvent::Message(MessageEvent::RoomMessage { msgtype: MessageType::Image, relates_to: None })));
    assert!(image.can_view_media());
    assert!(data(Some(MatrixEvent::State(StateEventType::RoomCreate))).is_room_create());
    assert!(!data(None).is_hidden_event());
}

#[test]
fn event_source_is_pretty_json() {
    assert_eq!(event_source("{\"a\":1}"), Some("{\n  \"a\": 1\n}".to_string()));
    assert_eq!(event_source("not json"), None);
}

#[test]
fn clock_format_follows_the_locale() {
    assert_eq!(clock_format("10:30:00 PM"), ClockFormat::TwelveHour);
    assert_eq!(clock_format("10:30:00 am"), ClockFormat::TwelveHour);
    assert_eq!(clock_format("22:30:00"), ClockFormat::TwentyFourHour);
    assert_eq!(clock_format("m"), ClockFormat::TwentyFourHour);
}

#[test]
fn explore_page_follows_list_state() {
    let mut l = PublicRoomList::new();
    assert_eq!(explore_page(&l), ExplorePage::Empty);
    l.search(Some("rust".to_string()), None, None).unwrap();
    assert_eq!(explore_page(&l), ExplorePage::Spinner);
    l.handle_public_rooms_response(None, None, vec!["!a".to_string()]);
    assert_eq!(explore_page(&l), ExplorePage::Results);
}

#[test]
fn network_menu_lists_fixed_networks_first() {
    let menu = network_menu(vec![("irc".to_string(), "IRC".to_string())]);
    assert_eq!(menu.len(), 3);
    assert_eq!(menu[0], ("matrix".to_string(), "Matrix".to_string()));
    assert_eq!(menu[1], ("all".to_string(), "All rooms".to_string()));
    assert_eq!(menu[2], ("irc".to_string(), "IRC".to_string()));
    assert_eq!(network_menu(vec![]).len(), 2);
}

#[test]
fn event_actions_offer_files_only_for_file_messages() {
    assert_eq!(event_actions(None), None);
    let file = data(Some(MatrixEvent::Message(MessageEvent::RoomMessage { msgtype: MessageType::File, relates_to: None })));
    assert_eq!(event_actions(Some(&file)), Some(EventActionSet { view_source: true, file_save: true, file_open: true }));
    let text = data(Some(MatrixEvent::Message(MessageEvent::RoomMessage { msgtype: MessageType::Text, relates_to: None })));
    assert_eq!(event_actions(Some(&text)), Some(EventActionSet { view_source: true, file_save: false, file_open: false }));
    assert_eq!(event_actions(Some(&data(None))), Some(EventActionSet { view_source: true, file_save: false, file_open: false }));
}

#[test]
fn invitee_toggle_from_list() {
    let mut l = InviteeList::new();
    l.set_search_term(Some("al".to_string()));
    l.finish_search("al", Some(vec![user(1, "Alice"), user(2, "Alan")]), &vec![]);
    assert_eq!(invite_page(l.state()), InvitePage::Matching);
    assert!(l.toggle_invited(1));
    assert!(l.is_invited(2) && l.has_selected());
    assert!(!l.toggle_invited(1));
    assert!(!l.is_invited(2) && !l.has_selected());
    assert_eq!(invite_page(InviteeListState::Initial), InvitePage::NoSearch);
    assert_eq!(invite_page(InviteeListState::Error), InvitePage::Error);
}
