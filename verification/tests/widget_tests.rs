use fractal::content::{Content, ContentItem, ContentPage};
use fractal::public_room_list::{PublicRoom, PublicRoomAction};
use fractal::room_history::{HistoryPage, HistoryRoom, RoomHistory};
use fractal::content_type::ContentType;
use fractal::invite::Invite;
use fractal::item_row::{row_item, DividerLabel, ItemRow, RowChild, RowItem};
use fractal::media::{get_width_height, image_measure, image_measure_for, video_measure, MediaRequest, MediaResponse, MediaState, MediaStep, MediaType, MessageMedia, Orientation, MediaChild};
use fractal::media_viewer::{video_file_name, FoldPolicy, MediaAlign, MediaLoad, MediaViewer, ViewerChild, ViewerContent, ViewerEvent, ViewerMessage};
use fractal::member_page::{contains_ignoring_case, decimal, filter_members, list_height, members_with, search_string, sort_members};
use fractal::room_type::RoomType;
use fractal::session::{new_passphrase, LoginSteps, NavigationDirection, PasswordLogin, Session};
use fractal::state_row::{CreationView, MemberContent, Membership, StateContent, StateCreation, StateEventSummary, StateMessage, StateRow};
use fractal::timeline::ItemType;
use fractal::event::{MatrixEvent, StateEventType};
use fractal::verification::{
    scan_button_label, ButtonAction, ButtonState, VerificationButton, IdentityVerificationWidget, InfoBarView, SasData, SasRows, VerificationAction, VerificationInfoBar, VerificationMode,
    VerificationPage, VerificationState,
};

fn member(m: Membership, name: Option<&str>, avatar: Option<&str>) -> MemberContent {
    MemberContent { membership: m, displayname: name.map(|s| s.to_string()), avatar_url: avatar.map(|s| s.to_string()) }
}

fn shown(key: &str, sender: &str, content: StateContent) -> StateMessage {
    let mut row = StateRow::new();
    row.update(&StateEventSummary { state_key: key.to_string(), sender: sender.to_string(), content });
    row.message().clone().unwrap()
}

#[test]
fn state_row_messages() {
    assert!(matches!(shown("@a", "@a", StateContent::RoomCreate), StateMessage::RoomBeginning));
    let joined = StateContent::RoomMember { content: member(Membership::Join, Some("Alice"), None), prev: None };
    assert!(matches!(shown("@a", "@a", joined), StateMessage::Joined { name } if name == "Alice"));
    let renamed = StateContent::RoomMember {
        content: member(Membership::Join, Some("Alicia"), None),
        prev: Some(member(Membership::Join, Some("Alice"), None)),
    };
    assert!(matches!(shown("@a", "@a", renamed),
        StateMessage::DisplayNameChanged { prev_name, name } if prev_name == "Alice" && name == "Alicia"));
    let unnamed = StateContent::RoomMember {
        content: member(Membership::Join, None, None),
        prev: Some(member(Membership::Join, Some("Alice"), None)),
    };
    assert!(matches!(shown("@a", "@a", unnamed), StateMessage::DisplayNameRemoved { prev_name } if prev_name == "Alice"));
    let named = StateContent::RoomMember {
        content: member(Membership::Join, Some("Alice"), None),
        prev: Some(member(Membership::Join, None, None)),
    };
    assert!(matches!(shown("@a", "@a", named), StateMessage::DisplayNameSet { user, name } if user == "@a" && name == "Alice"));
    let avatar = StateContent::RoomMember {
        content: member(Membership::Join, None, Some("mxc://x")),
        prev: Some(member(Membership::Join, None, None)),
    };
    assert!(matches!(shown("@a", "@a", avatar), StateMessage::AvatarSet { name } if name == "@a"));
    let kicked = StateContent::RoomMember { content: member(Membership::Leave, None, None), prev: None };
    assert!(matches!(shown("@a", "@b", kicked), StateMessage::Kicked { name } if name == "@a"));
    let left = StateContent::RoomMember { content: member(Membership::Leave, None, None), prev: None };
    assert!(matches!(shown("@a", "@a", left), StateMessage::Left { .. }));
    let rejected = StateContent::RoomMember {
        content: member(Membership::Leave, None, None),
        prev: Some(member(Membership::Invite, None, None)),
    };
    assert!(matches!(shown("@a", "@a", rejected), StateMessage::InviteRejected { .. }));
    let unbanned = StateContent::RoomMember {
        content: member(Membership::Leave, None, None),
        prev: Some(member(Membership::Ban, None, None)),
    };
    assert!(matches!(shown("@a", "@b", unbanned), StateMessage::Unbanned { .. }));
    let third = StateContent::RoomThirdPartyInvite { display_name: String::new() };
    assert!(matches!(shown("@a", "@b", third), StateMessage::Invited { name } if name == "@a"));
    assert!(matches!(shown("@a", "@b", StateContent::Other), StateMessage::UnsupportedStateEvent));
    let other = StateContent::RoomMember { content: member(Membership::Other, None, None), prev: None };
    assert!(matches!(shown("@a", "@b", other), StateMessage::UnsupportedMemberEvent));
}

#[test]
fn verification_pages() {
    let mut w = IdentityVerificationWidget::new();
    assert!(matches!(w.update_view(VerificationState::Requested, false, None), VerificationAction::Show(VerificationPage::AcceptRequest)));
    assert_eq!(w.page(), Some(VerificationPage::AcceptRequest));
    assert!(matches!(w.update_view(VerificationState::QrV1Show, false, None), VerificationAction::StartSas));
    assert!(matches!(w.update_view(VerificationState::QrV1Show, true, None), VerificationAction::ShowQrCode));
    assert_eq!(w.page(), Some(VerificationPage::QrCode));
    assert!(matches!(w.update_view(VerificationState::Cancelled, false, None), VerificationAction::Nothing));
    assert_eq!(w.page(), Some(VerificationPage::QrCode));
    let emoji: Vec<(String, String)> = (0..7).map(|i| (format!("e{}", i), format!("d{}", i))).collect();
    match w.update_view(VerificationState::SasV1, false, Some(SasData::Emoji(emoji))) {
        VerificationAction::ShowSas(SasRows::Emoji { first, second }) => {
            assert_eq!(first.len(), 4);
            assert_eq!(second.len(), 3);
            assert_eq!(second[0].0, "e4");
        },
        _ => panic!("expected emoji rows"),
    }
    assert_eq!(w.page(), Some(VerificationPage::Emoji));
    assert!(matches!(
        w.update_view(VerificationState::SasV1, false, Some(SasData::Decimal(1, 2, 3))),
        VerificationAction::ShowSas(SasRows::Decimal(1, 2, 3))
    ));
}

#[test]
fn verification_info_bar() {
    let mut b = VerificationInfoBar::new();
    assert_eq!(b.view(), InfoBarView::Hidden);
    b.set_request(Some((VerificationState::Requested, false)));
    assert_eq!(b.view(), InfoBarView::Requested);
    b.set_request(Some((VerificationState::SasV1, false)));
    assert_eq!(b.view(), InfoBarView::InProgress);
    b.set_request(Some((VerificationState::Completed, true)));
    assert_eq!(b.view(), InfoBarView::Hidden);
}

#[test]
fn media_sizes() {
    assert_eq!(get_width_height(None), (-1, -1));
    assert_eq!(get_width_height(Some((Some(640), Some(70000)))), (640, 70000));
    assert_eq!(get_width_height(Some((None, Some(5_000_000_000)))), (-1, i32::MAX));
    let m = MessageMedia::image(1200, 800);
    // Width 600 at most, then the height that keeps the proportions.
    assert_eq!(m.measure_other(Orientation::Vertical, 1000), 600);
    assert_eq!(m.measure(Orientation::Vertical, 1000, None), (0, 400, -1, -1));
    assert_eq!(m.measure(Orientation::Horizontal, 300, None), (0, 450, -1, -1));
    // Not upscaled.
    let small = MessageMedia::image(100, 50);
    assert_eq!(small.measure(Orientation::Vertical, 1000, None), (0, 50, -1, -1));
    // Unknown sizes use the child's, or the fallback.
    let unknown = MessageMedia::image(-1, -1);
    assert_eq!(unknown.measure(Orientation::Horizontal, 100, Some(120)), (0, 120, -1, -1));
    assert_eq!(unknown.measure(Orientation::Horizontal, 100, None), (0, 480, -1, -1));
    // A width of zero counts as unknown, in both orientations.
    let flat = MessageMedia::image(0, 480);
    assert_eq!(flat.measure(Orientation::Vertical, 100, Some(77)), (0, 77, -1, -1));
    assert_eq!(flat.measure(Orientation::Horizontal, 100, Some(66)), (0, 66, -1, -1));
    assert_eq!(m.size_allocate(10, 200, Some(5)), 300);
    assert_eq!(unknown.size_allocate(10, 200, Some(5)), 5);
    assert_eq!(m.size_allocate(10, 200, None), 10);
    assert_eq!(video_measure(640, 480, Orientation::Vertical, 1000, Some(0)), (0, 240, -1, -1));
    assert_eq!(video_measure(640, 480, Orientation::Vertical, 1000, None), (0, 0, -1, -1));
}

#[test]
fn media_loading() {
    let mut m = MessageMedia::sticker(10, 10, "cat".to_string());
    assert_eq!(m.state(), MediaState::Initial);
    assert_eq!(m.overlays(), (true, false));
    assert_eq!(m.build(true), MediaRequest::Thumbnail);
    assert_eq!(m.state(), MediaState::Loading);
    assert!(matches!(m.handle_response(MediaRequest::Thumbnail, MediaResponse::Failed), MediaStep::Request(MediaRequest::File)));
    match m.handle_response(MediaRequest::File, MediaResponse::Data) {
        MediaStep::Show(MediaChild::Picture { tooltip, thumbnail_style }) => {
            assert_eq!(tooltip, Some("cat".to_string()));
            assert!(!thumbnail_style);
        },
        _ => panic!("expected a picture"),
    }
    assert_eq!(m.state(), MediaState::Ready);
    assert_eq!(m.overlays(), (false, false));
    let mut v = MessageMedia::video(10, 10, "clip.webm".to_string());
    assert_eq!(v.media_type(), MediaType::Video);
    assert_eq!(v.build(true), MediaRequest::File);
    assert!(matches!(v.handle_response(MediaRequest::File, MediaResponse::NoData), MediaStep::Fail));
    assert_eq!(v.state(), MediaState::Error);
    assert_eq!(v.overlays(), (false, true));
}

#[test]
fn item_rows() {
    let mut r = ItemRow::new();
    r.set_item(Some(RowItem::DayDivider { year: 2020, current_year: 2021 }));
    assert_eq!(r.child(), Some(RowChild::DividerRow(DividerLabel::DayWithYear)));
    r.set_item(Some(RowItem::NewMessageDivider));
    assert_eq!(r.child(), Some(RowChild::DividerRow(DividerLabel::NewMessages)));
    r.set_item(Some(RowItem::Event { is_state: true }));
    assert_eq!(r.child(), Some(RowChild::StateRow));
    r.set_item(None);
    assert_eq!(r.child(), Some(RowChild::StateRow));
    assert_eq!(r.item(), None);
    let day = row_item(&ItemType::DayDivider { day: 1, timestamp: 1 }, &None, 2021, 2021);
    assert_eq!(day, RowItem::DayDivider { year: 2021, current_year: 2021 });
    let st = row_item(&ItemType::Event(0), &Some(MatrixEvent::State(StateEventType::RoomName)), 0, 0);
    assert_eq!(st, RowItem::Event { is_state: true });
    let redacted = row_item(&ItemType::Event(0), &Some(MatrixEvent::RedactedState(StateEventType::RoomName)), 0, 0);
    assert_eq!(redacted, RowItem::Event { is_state: false });
}

#[test]
fn content_pages() {
    let mut c = Content::new();
    assert_eq!(c.page(), ContentPage::Empty);
    c.set_item(Some(ContentItem::Room { id: 3, category: RoomType::Invited }));
    assert_eq!(c.page(), ContentPage::Invite(3));
    c.room_category_changed(3, RoomType::Normal);
    assert_eq!(c.page(), ContentPage::RoomHistory(3));
    c.room_category_changed(4, RoomType::Invited);
    assert_eq!(c.page(), ContentPage::RoomHistory(3));
    c.set_item(Some(ContentItem::OtherEntry));
    assert_eq!(c.page(), ContentPage::RoomHistory(3));
    c.set_item(Some(ContentItem::Verification { id: 9 }));
    assert_eq!(c.page(), ContentPage::Verification(9));
    c.verification_changed(9, VerificationState::Dismissed);
    assert_eq!(c.item(), None);
    assert_eq!(c.page(), ContentPage::Empty);
}

#[test]
fn session_navigation() {
    let mut s = Session::new();
    assert_eq!(s.selected_content_type(), ContentType::NoSelection);
    assert_eq!(s.set_selected_content_type(ContentType::Room), Some(NavigationDirection::Forward));
    assert_eq!(s.set_selected_content_type(ContentType::Room), None);
    assert_eq!(s.set_selected_content_type(ContentType::NoSelection), Some(NavigationDirection::Back));
    assert!(s.set_selected_room(Some(4)));
    assert!(!s.set_selected_room(Some(4)));
    assert_eq!(s.selected_room(), Some(4));
}

#[test]
fn passphrase_is_thirty_alphanumerics() {
    let p = new_passphrase();
    assert_eq!(p.chars().count(), 30);
    assert!(p.chars().all(|c| c.is_ascii_alphanumeric()));
    assert_ne!(p, new_passphrase());
}

#[test]
fn invite_requests() {
    let mut i = Invite::new();
    assert_eq!(i.accept(), None);
    i.set_room(Some(1));
    assert_eq!(i.accept(), Some(1));
    assert!(i.buttons().accept_loading);
    assert!(!i.buttons().enabled);
    i.set_room(Some(2));
    assert!(i.buttons().enabled);
    i.set_room(Some(1));
    assert!(i.buttons().accept_loading);
    i.accept_failed(1);
    assert!(i.buttons().enabled);
    i.set_room(Some(2));
    assert_eq!(i.reject(), Some(2));
    assert!(i.buttons().reject_loading);
    i.category_changed(2, RoomType::Left);
    assert!(!i.buttons().reject_loading);
}

#[test]
fn member_lists() {
    let memberships = vec![Membership::Join, Membership::Invite, Membership::Join, Membership::Join];
    let joined = members_with(&memberships, Membership::Join);
    assert_eq!(joined, vec![0, 2, 3]);
    let power = vec![0, 0, 100, 50];
    let names = vec![2, 0, 1, 0];
    assert_eq!(sort_members(&joined, &power, &names), vec![2, 3, 0]);
    let tie = vec![0, 0, 0, 0];
    assert_eq!(sort_members(&joined, &tie, &names), vec![3, 2, 0]);
    assert_eq!(list_height(6), 300);
    assert_eq!(list_height(5), -1);
    assert_eq!(decimal(0), "0");
    assert_eq!(decimal(-42), "-42");
    assert_eq!(decimal(i64::MIN), "-9223372036854775808");
    assert_eq!(decimal(1234567890), "1234567890");
    assert_eq!(search_string("Alice", "@a:x", "Admin", 100), "Alice @a:x Admin 100");
}

#[test]
fn room_history_view() {
    let mut h = RoomHistory::new();
    assert!(h.view().sticky && !h.view().scroll_button);
    assert!(h.set_room(Some(HistoryRoom { id: 1, category: RoomType::Left, timeline_empty: false })));
    assert!(!h.view().leave_enabled && !h.view().menu_visible);
    assert_eq!(h.view().page, HistoryPage::Content);
    assert!(!h.set_room(Some(HistoryRoom { id: 1, category: RoomType::Normal, timeline_empty: true })));
    h.update_room_state(RoomType::Normal);
    assert!(h.view().leave_enabled);
    h.set_empty_timeline(true);
    assert_eq!(h.view().page, HistoryPage::Loading);
    h.value_changed(false);
    assert!(!h.view().sticky && h.view().scroll_button);
    assert!(!h.upper_changed());
    h.scroll_down();
    h.value_changed(false);
    assert!(!h.view().sticky);
    h.value_changed(true);
    assert!(h.view().sticky && !h.view().auto_scrolling);
    assert!(h.upper_changed());
    assert!(h.view().auto_scrolling);
    h.text_changed(true);
    assert!(h.view().send_enabled);
    assert!(h.sends_on_key(true, false));
    assert!(!h.sends_on_key(true, true));
    assert!(h.load_more_messages(false, true));
    assert!(!h.load_more_messages(false, false));
}

#[test]
fn creation_row_links_the_previous_room() {
    let mut c = StateCreation::new();
    c.set_event(Some("!old:x"));
    assert!(matches!(c.view(), Some(CreationView::Continuation { action }) if action == "session.show-room::!old:x"));
    c.set_event(None);
    assert!(matches!(c.view(), Some(CreationView::Beginning)));
}

#[test]
fn public_room_joins_or_views() {
    let mut r = PublicRoom::new();
    assert!(matches!(r.join_or_view(), PublicRoomAction::Nothing));
    r.set_matrix_public_room("!a:x".to_string(), false);
    assert!(matches!(r.join_or_view(), PublicRoomAction::Join(id) if id == "!a:x"));
    r.set_room();
    assert!(matches!(r.join_or_view(), PublicRoomAction::View(id) if id == "!a:x"));
    r.set_pending(true);
    assert!(r.is_pending());
}

#[test]
fn verification_mode_texts() {
    let t = IdentityVerificationWidget::init_mode(VerificationMode::CurrentSession);
    assert!(!t.markup);
    assert_eq!(t.labels.len(), 12);
    assert_eq!(t.labels[0], (2, "Verify the new session with the current session.", false));
    assert_eq!(t.done_button, Some("Get Started"));
    let u = IdentityVerificationWidget::init_mode(VerificationMode::User);
    assert!(u.markup);
    assert_eq!(u.labels.len(), 15);
    assert_eq!(u.labels[13], (14, "Waiting for {}", true));
    assert_eq!(u.done_button, None);
    assert_eq!(IdentityVerificationWidget::init_mode(VerificationMode::OtherSession).labels.len(), 15);
}

#[test]
fn image_sizes() {
    assert_eq!(image_measure_for(Orientation::Vertical, 1000), 320);
    assert_eq!(image_measure_for(Orientation::Horizontal, 1000), 1000);
    assert_eq!(image_measure(640, 480, Orientation::Vertical, 1000, Some((0, 999, -1, -1))), (0, 240, -1, -1));
    assert_eq!(image_measure(-1, -1, Orientation::Vertical, 1000, Some((0, 100, -1, -1))), (0, 100, -1, -1));
    assert_eq!(image_measure(640, 480, Orientation::Horizontal, 100, Some((1, 2, 3, 4))), (1, 2, 3, 4));
    assert_eq!(image_measure(640, 480, Orientation::Horizontal, 100, None), (0, 0, -1, -1));
}

#[test]
fn session_login_and_sync() {
    let mut s = Session::new();
    assert_eq!(s.handle_login_result(Err("Invalid password".to_string()), true), None);
    assert_eq!(s.get_error(), Some("Invalid password".to_string()));
    assert_eq!(s.get_error(), None);
    assert_eq!(s.handle_login_result(Ok(()), true), Some(LoginSteps { store_session: true, start_sync: true }));
    assert_eq!(s.handle_login_result(Ok(()), false), Some(LoginSteps { store_session: false, start_sync: true }));
    assert_eq!(s.handle_password_login(Err("Unreachable".to_string())), PasswordLogin { remove_store: true, steps: None });
    assert_eq!(s.get_error(), Some("Unreachable".to_string()));
    assert_eq!(
        s.handle_password_login(Ok(())),
        PasswordLogin { remove_store: false, steps: Some(LoginSteps { store_session: true, start_sync: true }) }
    );
    assert!(s.handle_sync_response());
    assert!(!s.handle_sync_response());
}

#[test]
fn verification_buttons_follow_clicks() {
    let mut w = IdentityVerificationWidget::new();
    let idle = ButtonState { loading: false, sensitive: true };
    assert_eq!(w.button(VerificationButton::Accept), idle);
    // Without a request, accepting asks for nothing, but the buttons still react.
    assert_eq!(w.click(VerificationButton::Accept, false), ButtonAction::Nothing);
    assert_eq!(w.button(VerificationButton::Accept), ButtonState { loading: true, sensitive: true });
    assert_eq!(w.button(VerificationButton::Decline), ButtonState { loading: false, sensitive: false });
    // A new request makes every button idle again.
    assert!(w.set_request(Some((7, VerificationMode::CurrentSession))));
    assert_eq!(w.button(VerificationButton::Accept), idle);
    assert_eq!(w.button(VerificationButton::Decline), idle);
    assert!(!w.set_request(Some((7, VerificationMode::CurrentSession))));
    assert_eq!(w.click(VerificationButton::Accept, false), ButtonAction::Accept);
    assert_eq!(w.click(VerificationButton::Decline, false), ButtonAction::Decline);
    assert_eq!(w.click(VerificationButton::StartEmoji, false), ButtonAction::StartSas);
    assert_eq!(w.button(VerificationButton::ScanQrCode), ButtonState { loading: false, sensitive: false });
    assert_eq!(w.click(VerificationButton::ScanQrCode, true), ButtonAction::StartScanning);
    assert_eq!(w.click(VerificationButton::ScanQrCode, false), ButtonAction::TakeScreenshot);
    assert_eq!(w.click(VerificationButton::TakeScreenshot2, false), ButtonAction::TakeScreenshot);
    assert_eq!(w.click(VerificationButton::EmojiNotMatch, false), ButtonAction::EmojiNotMatch);
    assert_eq!(w.button(VerificationButton::EmojiMatch), ButtonState { loading: false, sensitive: false });
    assert!(w.done_shows_content());
    // No QR code in the screenshot: the buttons are idle again.
    assert!(!w.screenshot_taken(false));
    assert_eq!(w.button(VerificationButton::EmojiMatch), idle);
    assert!(w.screenshot_taken(true));
    assert_eq!(w.page(), Some(VerificationPage::QrCodeScanned));
    w.scanning_started(false);
    assert_eq!(w.page(), Some(VerificationPage::NoCamera));
    w.scanning_started(true);
    assert_eq!(w.page(), Some(VerificationPage::ScanQrCode));
    assert!(w.set_request(Some((8, VerificationMode::User))));
    assert!(!w.done_shows_content());
    assert_eq!(scan_button_label(true), "Scan QR code with this session");
    assert_eq!(scan_button_label(false), "Take a Screenshot of a Qr Code");
}

#[test]
fn media_viewer_loads_and_fullscreens() {
    let mut v = MediaViewer::new();
    assert_eq!(v.set_event(Some(ViewerEvent { event_id: 3, content: ViewerContent::Image { body: "cat.png".to_string() } })), Some((3, MediaLoad::Image)));
    assert_eq!(v.body(), Some("cat.png".to_string()));
    assert_eq!(v.event(), Some(3));
    assert_eq!(v.actions().unwrap().file_save, false);
    // The same event again fetches nothing.
    assert_eq!(v.set_event(Some(ViewerEvent { event_id: 3, content: ViewerContent::Image { body: "cat.png".to_string() } })), None);
    v.image_loaded(true, false);
    assert_eq!(v.child(), ViewerChild::Message(ViewerMessage::ImageUnsupported));
    v.image_loaded(false, false);
    assert_eq!(v.child(), ViewerChild::Message(ViewerMessage::ImageUnavailable));
    v.image_loaded(true, true);
    assert_eq!(v.child(), ViewerChild::Picture);
    assert_eq!(v.set_event(Some(ViewerEvent { event_id: 4, content: ViewerContent::Video { body: "clip".to_string() } })), Some((4, MediaLoad::Video)));
    v.video_loaded(false);
    assert_eq!(v.child(), ViewerChild::Message(ViewerMessage::VideoUnavailable));
    // Other content keeps the body.
    assert_eq!(v.set_event(Some(ViewerEvent { event_id: 5, content: ViewerContent::Other })), None);
    assert_eq!(v.body(), Some("clip".to_string()));
    // The header bar only folds and reveals in fullscreen.
    v.handle_touch();
    assert!(!v.reveal_flap());
    v.set_fullscreened(true);
    assert_eq!((v.halign(), v.fold_policy()), (MediaAlign::Fill, FoldPolicy::Always));
    v.handle_motion(false);
    assert!(!v.reveal_flap());
    v.handle_motion(true);
    assert!(v.reveal_flap());
    v.set_fullscreened(false);
    assert_eq!((v.halign(), v.fold_policy()), (MediaAlign::Center, FoldPolicy::Never));
    assert!(MediaViewer::handle_click(2));
    assert!(!MediaViewer::handle_click(1));
    assert_eq!(video_file_name("abc", "clip.mp4"), "abc_clip.mp4");
}

#[test]
fn member_search_filters_ignoring_case() {
    assert!(contains_ignoring_case("Alice @alice:example.org Admin 100", "ALICE"));
    assert!(contains_ignoring_case("Bob @bob:x Default 0", ""));
    assert!(!contains_ignoring_case("Bob", "bobby"));
    assert!(contains_ignoring_case("Bob @bob:x Moderator 50", "mod"));
    let texts = vec![
        search_string("Alice", "@alice:x", "Admin", 100),
        search_string("Bob", "@bob:x", "Default", 0),
        search_string("Carol", "@carol:x", "Moderator", 50),
    ];
    assert_eq!(texts[0], "Alice @alice:x Admin 100");
    assert_eq!(filter_members(&vec![2, 0, 1], &texts, "OL"), vec![2]);
    assert_eq!(filter_members(&vec![2, 0, 1], &texts, "al"), vec![0]);
    assert_eq!(filter_members(&vec![2, 0, 1], &texts, "BOB"), vec![1]);
    assert_eq!(filter_members(&vec![2, 0, 1], &texts, ""), vec![2, 0, 1]);
}

#[test]
fn sas_rows_follow_the_request_data() {
    let mut w = IdentityVerificationWidget::new();
    let emoji: Vec<(String, String)> = (0..7).map(|i| (format!("e{}", i), format!("d{}", i))).collect();
    match w.update_view(VerificationState::SasV1, false, Some(SasData::Emoji(emoji.clone()))) {
        VerificationAction::ShowSas(SasRows::Emoji { first, second }) => {
            assert_eq!(first, emoji[0..4].to_vec());
            assert_eq!(second, emoji[4..7].to_vec());
        }
        _ => panic!("expected the emoji rows"),
    }
    match w.update_view(VerificationState::SasV1, false, Some(SasData::Decimal(1, 2, 3))) {
        VerificationAction::ShowSas(SasRows::Decimal(a, b, c)) => assert_eq!((a, b, c), (1, 2, 3)),
        _ => panic!("expected the numbers"),
    }
}

#[test]
fn login_error_is_taken_once() {
    let mut s = Session::new();
    assert_eq!(s.get_error(), None);
    s.handle_password_login(Err("Forbidden".to_string()));
    assert_eq!(s.get_error(), Some("Forbidden".to_string()));
    assert_eq!(s.get_error(), None);
    s.handle_login_result(Ok(()), false);
    assert_eq!(s.get_error(), None);
}
