use oku::database::{newest_first, HistoryRecord};
use oku::history::{HistoryItem, HistorySession, Timestamp};
use oku::note_tags::NoteTags;
use oku::suggestions::{rank_suggestions, HistoryManager};

fn s(x: &str) -> String {
    x.to_string()
}

fn at(secs: i64) -> Timestamp {
    Timestamp { secs, nanos: 0 }
}

fn item(uri: &str, original: &str, secs: i64) -> HistoryItem {
    HistoryItem::from_parts(s(uri), s(original), s(""), at(secs))
}

fn uris(items: &[HistoryItem]) -> Vec<(String, String, i64)> {
    items.iter().map(|x| (x.uri(), x.original_uri(), x.timestamp().secs)).collect()
}

#[test]
fn history_item_setters_hand_back_previous_values() {
    let mut x = HistoryItem::from_parts(s("u"), s("o"), s("t"), at(7));
    assert_eq!(x.set_uri(s("u2")), "u");
    assert_eq!(x.set_original_uri(s("o2")), "o");
    assert_eq!(x.set_title(s("t2")), "t");
    assert_eq!((x.uri(), x.original_uri(), x.title(), x.timestamp()), (s("u2"), s("o2"), s("t2"), at(7)));
    let y = HistoryItem::new(s("a"), s("b"), s("c"));
    assert_eq!((y.uri(), y.original_uri(), y.title()), (s("a"), s("b"), s("c")));
    assert!(y.timestamp().secs > 0);
}

#[test]
fn navigations_build_the_session_graph() {
    let mut session = HistorySession::new();
    assert_eq!(session.node_count(), 0);
    assert_eq!(session.add_navigation(s("a"), s("b")), Some((0, 1)));
    assert_eq!(session.add_navigation(s("b"), s("c")), Some((1, 2)));
    assert_eq!(session.add_navigation(s("c"), s("a")), Some((2, 0)));
    assert_eq!(session.add_navigation(s("a"), s("a")), None);
    assert_eq!(session.add_navigation(s("a"), s("b")), Some((0, 1)));
    assert_eq!(session.node_count(), 3);
    assert_eq!(session.find_uri("b"), Some(1));
    assert_eq!(session.find_uri("zzz"), None);
    assert!(session.room_left());
}

#[test]
fn find_or_add_is_idempotent() {
    let mut session = HistorySession::new();
    assert_eq!(session.find_or_add_uri(s("x")), 0);
    assert_eq!(session.find_or_add_uri(s("y")), 1);
    assert_eq!(session.find_or_add_uri(s("x")), 0);
    assert_eq!(session.node_count(), 2);
    let x = session.item(0).unwrap();
    assert_eq!((x.uri(), x.original_uri(), x.title()), (s("x"), s("x"), s("")));
    assert!(session.item(2).is_none());
}

#[test]
fn updates_change_only_the_named_page() {
    let mut session = HistorySession::new();
    session.add_navigation(s("a"), s("b"));
    session.update_uri("a", Some(s("https://a.org/")), Some(s("A")));
    session.update_uri("b", None, Some(s("B")));
    session.update_uri("nowhere", Some(s("x")), Some(s("y")));
    let a = session.item(0).unwrap();
    let b = session.item(1).unwrap();
    assert_eq!((a.uri(), a.original_uri(), a.title()), (s("https://a.org/"), s("a"), s("A")));
    assert_eq!((b.uri(), b.original_uri(), b.title()), (s("b"), s("b"), s("B")));
    assert_eq!(session.find_uri("a"), Some(0));
    assert_eq!(session.node_count(), 2);
}

#[test]
fn sessions_get_distinct_identifiers() {
    let a = HistorySession::new();
    let b = HistorySession::new();
    assert_ne!(a.id(), b.id());
}

#[test]
fn suggestions_keep_the_newest_page_per_original_uri() {
    let items = vec![
        item("u1", "o1", 5),
        item("u1", "o1", 3),
        item("u2", "o1", 4),
        item("u3", "o0", 1),
    ];
    let r = rank_suggestions(&items);
    assert_eq!(uris(&r), vec![(s("u3"), s("o0"), 1), (s("u1"), s("o1"), 5)]);
}

#[test]
fn suggestions_keep_the_newest_visit_of_a_uri() {
    let items = vec![item("u", "o2", 2), item("u", "o1", 9), item("v", "o2", 1)];
    let r = rank_suggestions(&items);
    assert_eq!(uris(&r), vec![(s("u"), s("o1"), 9), (s("v"), s("o2"), 1)]);
}

#[test]
fn suggestions_are_at_most_five() {
    let items: Vec<HistoryItem> = ["g", "c", "a", "f", "b", "e", "d"]
        .iter()
        .map(|o| item(&format!("https://{o}"), o, 1))
        .collect();
    let r = rank_suggestions(&items);
    let originals: Vec<String> = r.iter().map(|x| x.original_uri()).collect();
    assert_eq!(originals, vec![s("a"), s("b"), s("c"), s("d"), s("e")]);
    assert!(rank_suggestions(&vec![]).is_empty());
}

#[test]
fn manager_suggestions_come_from_the_hits() {
    let mut session = HistorySession::new();
    session.add_navigation(s("https://b.org"), s("https://a.org"));
    let id = session.id();
    let mut manager = HistoryManager::new(vec![], session);
    assert!(manager.get_suggestions("  ", &vec![(id, 0)]).is_empty());
    assert!(manager.get_suggestions("  ", &vec![(id, 9)]).is_empty());
    let hits = vec![(id, 0), (id, 1)];
    assert!(manager.hits_resolve(&hits));
    assert!(!manager.hits_resolve(&vec![(id, 2)]));
    assert!(!manager.hits_resolve(&vec![(id.wrapping_add(1), 0)]));
    let r = manager.get_suggestions("org", &hits);
    let got: Vec<String> = r.iter().map(|x| x.uri()).collect();
    assert_eq!(got, vec![s("https://a.org"), s("https://b.org")]);
    assert_eq!(manager.add_navigation(s("https://a.org"), s("https://c.org")), Some((1, 2)));
    assert_eq!(manager.get_current_session().node_count(), 3);
    assert!(manager.hit_page((id, 2)).is_some());
    assert!(manager.room_left());
}

#[test]
fn manager_finds_pages_of_earlier_sessions() {
    let mut old = HistorySession::new();
    old.add_navigation(s("x"), s("y"));
    let old_id = old.id();
    let current = HistorySession::new();
    let manager = HistoryManager::new(vec![old], current);
    let page = manager.hit_page((old_id, 1)).unwrap();
    assert_eq!(page.uri(), "y");
    assert!(manager.hit_page((old_id, 5)).is_none());
}

fn record(id: u128, secs: i64) -> HistoryRecord {
    HistoryRecord {
        id,
        original_uri: format!("o{id}"),
        uri: format!("u{id}"),
        title: None,
        timestamp: at(secs),
    }
}

#[test]
fn records_newest_first() {
    let r = newest_first(vec![record(1, 10), record(2, 30), record(3, 20), record(4, 30)]);
    let stamps: Vec<i64> = r.iter().map(|x| x.timestamp.secs).collect();
    assert_eq!(stamps, vec![30, 30, 20, 10]);
    let mut ids: Vec<u128> = r.iter().map(|x| x.id).collect();
    ids.sort();
    assert_eq!(ids, vec![1, 2, 3, 4]);
    assert!(newest_first(vec![]).is_empty());
}

#[test]
fn note_tags_append_and_delete() {
    let mut tags = NoteTags::new();
    assert!(tags.tags().is_empty());
    tags.append_tag(s("rust"));
    tags.append_tag(s("web"));
    tags.append_tag(s("rust"));
    assert_eq!(tags.tags(), vec![s("rust"), s("web"), s("rust")]);
    tags.delete_tag("rust");
    assert_eq!(tags.tags(), vec![s("web")]);
    tags.delete_tag("absent");
    assert_eq!(tags.tags(), vec![s("web")]);
    tags.set_tags(vec![s("a"), s("rust")]);
    assert_eq!(tags.tags(), vec![s("a"), s("rust")]);
    tags.delete_tag("rust");
    assert_eq!(tags.tags(), vec![s("a")]);
    tags.delete_tag("rust");
    assert_eq!(tags.tags(), vec![s("a")]);
}

#[test]
fn empty_sessions_are_dropped_unless_current() {
    let mut session = HistorySession::new();
    let id = session.id();
    assert!(session.worth_keeping(id));
    assert!(!session.worth_keeping(id.wrapping_add(1)));
    session.add_navigation(s("a"), s("b"));
    assert!(session.worth_keeping(id.wrapping_add(1)));
}

#[test]
fn link_clicks_update_the_page_left() {
    let session = HistorySession::new();
    let mut manager = HistoryManager::new(vec![], session);
    assert_eq!(
        manager.link_clicked(s("a"), s("b"), Some(s("https://a.org/")), s("Page A")),
        Some((0, 1))
    );
    let a = manager.get_current_session().item(0).unwrap();
    assert_eq!((a.uri(), a.original_uri(), a.title()), (s("https://a.org/"), s("a"), s("Page A")));
    let b = manager.get_current_session().item(1).unwrap();
    assert_eq!((b.uri(), b.title()), (s("b"), s("")));
    assert_eq!(manager.link_clicked(s("b"), s("b"), None, s("Page B")), None);
    let b = manager.get_current_session().item(1).unwrap();
    assert_eq!((b.uri(), b.title()), (s("b"), s("Page B")));
}

#[test]
fn checked_calls() {
    let mut session = HistorySession::new();
    assert_eq!(session.try_add_navigation(s("a"), s("b")), Some((0, 1)));
    assert_eq!(session.try_add_navigation(s("a"), s("a")), None);
    let id = session.id();
    let manager = HistoryManager::new(vec![], session);
    assert!(manager.try_get_suggestions("a", &vec![(id, 7)]).is_none());
    assert_eq!(manager.try_get_suggestions(" ", &vec![(id, 7)]).map(|v| v.len()), Some(0));
    let r = manager.try_get_suggestions("a", &vec![(id, 0)]).unwrap();
    assert_eq!(r.len(), 1);
    assert_eq!(r[0].uri(), "a");
}

#[test]
fn times_order_by_seconds_then_nanoseconds() {
    let t = |secs, nanos| Timestamp { secs, nanos };
    assert!(t(11, 0).is_later(&t(10, 999_999_999)));
    assert!(t(10, 7).is_later(&t(10, 5)));
    assert!(!t(10, 5).is_later(&t(10, 5)));
    assert!(!t(9, 999_999_999).is_later(&t(10, 0)));
    assert!(t(10, 1_500_000_000).is_later(&t(10, 999_999_999)));
    assert!(t(11, 0).is_later(&t(10, 1_500_000_000)));
}

#[test]
fn suggestions_tell_visits_in_one_second_apart() {
    let at_ns = |uri: &str, original: &str, nanos| {
        HistoryItem::from_parts(s(uri), s(original), s(""), Timestamp { secs: 5, nanos })
    };
    let r = rank_suggestions(&vec![at_ns("u1", "o1", 100), at_ns("u2", "o1", 200)]);
    assert_eq!(r.len(), 1);
    assert_eq!(r[0].uri(), "u2");
    let r = rank_suggestions(&vec![at_ns("u", "o1", 100), at_ns("u", "o2", 200)]);
    assert_eq!(r.len(), 1);
    assert_eq!(r[0].original_uri(), "o2");
}

#[test]
fn records_in_one_second_go_by_nanoseconds() {
    let mut a = record(1, 10);
    a.timestamp.nanos = 5;
    let mut b = record(2, 10);
    b.timestamp.nanos = 7;
    let r = newest_first(vec![a, b, record(3, 9)]);
    let ids: Vec<u128> = r.iter().map(|x| x.id).collect();
    assert_eq!(ids, vec![2, 1, 3]);
}

#[test]
fn page_count_grows_only_for_new_addresses() {
    let mut session = HistorySession::new();
    assert_eq!(session.find_or_add_uri(s("a")), 0);
    assert_eq!(session.node_count(), 1);
    assert_eq!(session.find_or_add_uri(s("a")), 0);
    assert_eq!(session.node_count(), 1);
    assert_eq!(session.add_navigation(s("b"), s("c")), Some((1, 2)));
    assert_eq!(session.node_count(), 3);
    assert_eq!(session.add_navigation(s("a"), s("c")), Some((0, 2)));
    assert_eq!(session.node_count(), 3);
    assert_eq!(session.add_navigation(s("c"), s("d")), Some((2, 3)));
    assert_eq!(session.node_count(), 4);
}

#[test]
fn recorded_pages_start_at_their_own_address() {
    let mut session = HistorySession::new();
    assert_eq!(session.add_navigation(s("a"), s("b")), Some((0, 1)));
    for (i, u) in [(0, "a"), (1, "b")] {
        let p = session.item(i).unwrap();
        assert_eq!((p.uri(), p.original_uri(), p.title()), (s(u), s(u), s("")));
    }
    let mut manager = HistoryManager::new(vec![], HistorySession::new());
    assert_eq!(manager.link_clicked(s("x"), s("y"), None, s("Page X")), Some((0, 1)));
    let x = manager.get_current_session().item(0).unwrap();
    assert_eq!((x.uri(), x.title()), (s("x"), s("Page X")));
    let y = manager.get_current_session().item(1).unwrap();
    assert_eq!((y.uri(), y.original_uri(), y.title()), (s("y"), s("y"), s("")));
}
