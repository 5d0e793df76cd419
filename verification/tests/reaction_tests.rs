use fractal::event::{EventData, MatrixEvent, MessageEvent, MessageType};
use fractal::reactions::{ReactionGroup, ReactionList};

fn reaction(id: u64, sender: u64, to: u64, key: &str) -> EventData {
    EventData {
        event_id: id,
        sender,
        timestamp: id as i64,
        day: 0,
        transaction_id: None,
        event: Some(MatrixEvent::Message(MessageEvent::Reaction { relates_to: to, key: key.to_string() })),
    }
}

fn message(id: u64) -> EventData {
    EventData {
        event_id: id,
        sender: 1,
        timestamp: id as i64,
        day: 0,
        transaction_id: None,
        event: Some(MatrixEvent::Message(MessageEvent::RoomMessage { msgtype: MessageType::Text, relates_to: None })),
    }
}

fn keys(l: &ReactionList) -> Vec<String> {
    (0..l.n_items()).map(|i| l.item(i).unwrap().key().to_string()).collect()
}

#[test]
fn group_counts_reactions_not_redacted() {
    let mut g = ReactionGroup::new("👍");
    assert_eq!(g.key(), "👍");
    assert_eq!(g.count(), 0);
    assert_eq!(g.add_reactions(&vec![(1, 10), (2, 11)]), 2);
    assert_eq!(g.count(), 2);
    assert!(g.redact(1));
    assert_eq!(g.count(), 1);
    assert!(!g.redact(99));
}

#[test]
fn adding_the_same_reactions_twice_adds_nothing() {
    let mut g = ReactionGroup::new("🎉");
    assert_eq!(g.add_reactions(&vec![(1, 10), (2, 11)]), 2);
    assert_eq!(g.add_reactions(&vec![(1, 10), (2, 11)]), 0);
    assert_eq!(g.count(), 2);
}

#[test]
fn redacting_twice_is_redacting_once() {
    let mut g = ReactionGroup::new("👍");
    g.add_reactions(&vec![(1, 10), (2, 11)]);
    assert!(g.redact(2));
    assert!(g.redact(2));
    assert_eq!(g.count(), 1);
}

#[test]
fn user_reaction_needs_a_user() {
    let mut g = ReactionGroup::new("👍");
    g.add_reactions(&vec![(1, 10), (2, 11)]);
    assert_eq!(g.user_reaction(None), None);
    assert_eq!(g.user_reaction(Some(11)), Some(2));
    assert!(g.has_user(Some(10)));
    assert!(!g.has_user(Some(12)));
    g.redact(2);
    assert_eq!(g.user_reaction(Some(11)), None);
}

#[test]
fn list_groups_by_key_in_order() {
    let mut l = ReactionList::new();
    let change = l.add_reactions(&vec![
        reaction(1, 10, 100, "👍"),
        message(2),
        reaction(3, 11, 100, "🎉"),
        reaction(4, 12, 100, "👍"),
    ]);
    assert_eq!(change, Some((0, 2)));
    assert_eq!(keys(&l), vec!["👍".to_string(), "🎉".to_string()]);
    assert_eq!(l.reaction_group_by_key("👍").unwrap().count(), 2);
    assert_eq!(l.reaction_group_by_key("🎉").unwrap().count(), 1);
    assert!(l.reaction_group_by_key("❤").is_none());
}

#[test]
fn new_groups_come_after_the_others() {
    let mut l = ReactionList::new();
    l.add_reactions(&vec![reaction(1, 10, 100, "a")]);
    let change = l.add_reactions(&vec![reaction(2, 10, 100, "b"), reaction(3, 11, 100, "a")]);
    assert_eq!(change, Some((1, 1)));
    assert_eq!(keys(&l), vec!["a".to_string(), "b".to_string()]);
    assert_eq!(l.reaction_group_by_key("a").unwrap().count(), 2);
    // Only reactions to existing groups: no new rows.
    assert_eq!(l.add_reactions(&vec![reaction(4, 12, 100, "b")]), None);
}

#[test]
fn redacting_the_last_reaction_removes_the_group() {
    let mut l = ReactionList::new();
    l.add_reactions(&vec![reaction(1, 10, 100, "a"), reaction(2, 10, 100, "b"), reaction(3, 11, 100, "b")]);
    assert_eq!(l.redact(2), None);
    assert_eq!(l.reaction_group_by_key("b").unwrap().count(), 1);
    assert_eq!(l.redact(1), Some(0));
    assert_eq!(keys(&l), vec!["b".to_string()]);
    assert_eq!(l.redact(42), None);
}

#[test]
fn remove_reaction_group_gives_its_place() {
    let mut l = ReactionList::new();
    l.add_reactions(&vec![reaction(1, 10, 100, "a"), reaction(2, 10, 100, "b"), reaction(3, 10, 100, "c")]);
    assert_eq!(l.remove_reaction_group("b"), 1);
    assert_eq!(keys(&l), vec!["a".to_string(), "c".to_string()]);
    assert!(l.reaction_group_by_key("b").is_none());
}
