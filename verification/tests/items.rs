use oku::bookmark_item::BookmarkItem;
use oku::database::{search_entries, HistoryRecord};
use oku::history::{node_label, Timestamp};
use oku::history_item::HistoryItem;

fn s(x: &str) -> String {
    x.to_string()
}

#[test]
fn bookmark_items_are_escaped() {
    let item = BookmarkItem::new(s("https://a.org/?x=1&y=2"), s("<b>Bold</b>"), s("a & b"), vec![s("c<d"), s("plain")]);
    assert_eq!(item.url(), "https://a.org/?x=1&amp;y=2");
    assert_eq!(item.title(), "&lt;b&gt;Bold&lt;/b&gt;");
    assert_eq!(item.body(), "a &amp; b");
    assert_eq!(item.tags(), vec![s("c&lt;d"), s("plain")]);
}

#[test]
fn history_items_are_escaped() {
    let item = HistoryItem::new(42, s("Tom & Jerry"), s("https://a.org/<x>"), s("Mon, 1 Jan 2024 00:00:00 +0000"));
    assert_eq!(item.id(), 42);
    assert_eq!(item.title(), "Tom &amp; Jerry");
    assert_eq!(item.uri(), "https://a.org/&lt;x&gt;");
    assert_eq!(item.timestamp(), "Mon, 1 Jan 2024 00:00:00 +0000");
}

#[test]
fn search_entries_keep_their_order() {
    let visits = vec![
        HistoryRecord { id: 1, original_uri: s("o"), uri: s("https://v.org"), title: None, timestamp: Timestamp { secs: 3, nanos: 0 } },
        HistoryRecord { id: 2, original_uri: s("o2"), uri: s("https://w.org"), title: Some(s("W")), timestamp: Timestamp { secs: 4, nanos: 0 } },
    ];
    let r = search_entries(visits, vec![(s("B"), s("https://b.org"))], vec![(s("P"), s("https://p.org"))]);
    assert_eq!(
        r,
        vec![
            (s(""), s("https://v.org")),
            (s("W"), s("https://w.org")),
            (s("B"), s("https://b.org")),
            (s("P"), s("https://p.org")),
        ]
    );
    assert!(search_entries(vec![], vec![], vec![]).is_empty());
}

#[test]
fn graph_labels() {
    assert_eq!(node_label("", "https://a.org"), "label = \"https://a.org\"");
    assert_eq!(node_label("  ", "https://a.org"), "label = \"https://a.org\"");
    assert_eq!(node_label("A", "https://a.org"), "label = \"A (https://a.org)\"");
}
