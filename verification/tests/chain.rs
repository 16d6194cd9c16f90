use th_chat::chain::{find_entry, reconcile, ChainWalk};
use th_chat::chat::{ChatEntry, ChatError, ChatMessage, Message, MessageContent, Role};

fn entry(id: &str, parent: Option<&str>) -> ChatMessage {
    ChatMessage {
        id: Some(id.to_string()),
        parent_id: parent.map(|p| p.to_string()),
        entry: ChatEntry::Message(Message {
            role: Role::User,
            content: vec![MessageContent::Text { text: format!("text of {}", id) }],
        }),
    }
}

fn chain() -> Vec<ChatMessage> {
    vec![
        entry("origin", None),
        entry("A", Some("origin")),
        entry("B", Some("A")),
        entry("C", Some("B")),
    ]
}

fn ids(entries: &Vec<ChatMessage>) -> Vec<String> {
    entries.iter().map(|e| e.id.clone().unwrap()).collect()
}

fn some(id: &str) -> Option<String> {
    Some(id.to_string())
}

/// Runs a walk against a fetch function and counts the fetches.
fn walk_with(
    server_head: Option<String>,
    client_head: Option<String>,
    store: &Vec<ChatMessage>,
) -> (Vec<ChatMessage>, usize) {
    let mut walk = ChainWalk::start(server_head, client_head);
    let mut fetches = 0;
    while let Some(id) = walk.pending() {
        fetches += 1;
        let fetched = store.iter().find(|e| e.id.as_ref() == Some(&id)).cloned();
        walk.supply(fetched);
    }
    (walk.finish(), fetches)
}

#[test]
fn reconcile_returns_entries_after_client_head_in_order() {
    let store = chain();
    let news = reconcile(&some("C"), &some("A"), &store);
    assert_eq!(ids(&news), vec!["B".to_string(), "C".to_string()]);
    assert_eq!(news[0], entry("B", Some("A")));
    assert_eq!(news[1], entry("C", Some("B")));
}

#[test]
fn reconcile_without_client_head_fetches_whole_history() {
    let store = chain();
    let news = reconcile(&some("C"), &None, &store);
    assert_eq!(ids(&news), vec!["origin", "A", "B", "C"]);
}

#[test]
fn reconcile_twice_yields_nothing_the_second_time() {
    let store = chain();
    let first = reconcile(&some("C"), &some("origin"), &store);
    assert_eq!(ids(&first), vec!["A", "B", "C"]);
    let advanced = first.last().unwrap().id.clone();
    let second = reconcile(&some("C"), &advanced, &store);
    assert!(second.is_empty());
}

#[test]
fn reconcile_in_sync_yields_nothing() {
    let store = chain();
    assert!(reconcile(&some("B"), &some("B"), &store).is_empty());
    let (news, fetches) = walk_with(some("B"), some("B"), &store);
    assert!(news.is_empty());
    assert_eq!(fetches, 0);
}

#[test]
fn missing_entry_truncates_the_walk() {
    // B's predecessor A is gone from the store.
    let store = vec![entry("origin", None), entry("B", Some("A")), entry("C", Some("B"))];
    let news = reconcile(&some("C"), &None, &store);
    assert_eq!(ids(&news), vec!["B", "C"]);
    let (walked, fetches) = walk_with(some("C"), None, &store);
    assert_eq!(ids(&walked), vec!["B", "C"]);
    assert_eq!(fetches, 3);
}

#[test]
fn stale_server_head_yields_nothing() {
    let store = chain();
    assert!(reconcile(&some("gone"), &some("A"), &store).is_empty());
}

#[test]
fn no_conversation_yields_nothing_without_a_fetch() {
    let store = chain();
    assert!(reconcile(&None, &some("A"), &store).is_empty());
    assert!(reconcile(&None, &None, &store).is_empty());
    let walk = ChainWalk::start(None, some("A"));
    assert_eq!(walk.pending(), None);
    let (news, fetches) = walk_with(None, some("A"), &store);
    assert!(news.is_empty());
    assert_eq!(fetches, 0);
}

#[test]
fn walk_asks_for_one_entry_at_a_time() {
    let store = chain();
    let mut walk = ChainWalk::start(some("C"), some("A"));
    assert_eq!(walk.pending(), some("C"));
    walk.supply(Some(store[3].clone()));
    assert_eq!(walk.pending(), some("B"));
    walk.supply(Some(store[2].clone()));
    // The cursor stands on the client's head: nothing more is fetched.
    assert_eq!(walk.pending(), None);
    walk.supply(Some(store[1].clone()));
    assert_eq!(ids(&walk.finish()), vec!["B", "C"]);
}

#[test]
fn walk_stops_at_the_origin() {
    let store = chain();
    let (news, fetches) = walk_with(some("A"), some("unknown"), &store);
    assert_eq!(ids(&news), vec!["origin", "A"]);
    assert_eq!(fetches, 2);
}

#[test]
fn heads_are_compared_as_ids() {
    // Two entries with the same content but other ids are not the same head.
    let store = vec![entry("x", None), entry("y", Some("x"))];
    let news = reconcile(&some("y"), &some("X"), &store);
    assert_eq!(ids(&news), vec!["x", "y"]);
}

#[test]
fn a_cycle_does_not_hang_the_walk() {
    let store = vec![entry("a", Some("b")), entry("b", Some("a"))];
    let news = reconcile(&some("a"), &None, &store);
    assert_eq!(news.len(), 2);
}

#[test]
fn find_entry_gives_the_first_of_an_id() {
    let store = chain();
    assert_eq!(find_entry(&store, &"origin".to_string()), Some(0));
    assert_eq!(find_entry(&store, &"C".to_string()), Some(3));
    assert_eq!(find_entry(&store, &"D".to_string()), None);
    let no_id = ChatMessage { id: None, ..entry("z", None) };
    assert_eq!(find_entry(&vec![no_id], &"z".to_string()), None);
}

#[test]
fn a_failed_fetch_abandons_the_walk() {
    let store = chain();
    let mut walk = ChainWalk::start(some("C"), some("origin"));
    walk.supply(Some(store[3].clone()));
    assert_eq!(walk.pending(), some("B"));
    // The fetch of B fails: the walk ends with the error, and C is not
    // handed out as if it were all that is new.
    let error = ChatError::Transport { detail: "connection lost".to_string() };
    assert_eq!(
        walk.abandon(error),
        Err(ChatError::Transport { detail: "connection lost".to_string() })
    );
}
