use oku::launch::{launch_requests, open_hint, parse_open_hint, unique_sorted};
use oku::replica_item::{replicas_match, replicas_updated, ReplicaItem};
use oku::row_text::{bookmark_row_text, download_title, history_row_text, join, suggestion_row_text};
use oku::text::{blank, starts_with, str_eq, strip_prefix};
use oku::vox_providers::{
    get_post_path, get_post_permalink, post_file_path, push_path, strip_suffix,
};
use oku::colour::colour_key_from;
use oku::window_util::{
    connect, get_title, nav_bar_text, navigation_target, with_scheme_guess, UrlParse,
};

fn s(x: &str) -> String {
    x.to_string()
}

#[test]
fn connect_loads_a_full_url_as_typed() {
    let t = connect("https://example.com", false, false);
    assert_eq!(t.entry_text, Some(s("https://example.com")));
    assert_eq!(t.load_uri, "https://example.com");
    let t = connect("HTTPS://Example.com", true, true);
    assert_eq!(t.entry_text, Some(s("HTTPS://Example.com")));
    assert_eq!(t.load_uri, "HTTPS://Example.com");
}

#[test]
fn connect_searches_for_text_without_a_scheme() {
    let t = connect("example.com", false, false);
    assert_eq!(t.entry_text, None);
    assert_eq!(t.load_uri, "oku:search/example.com");
    let t = connect("rust verification", false, false);
    assert_eq!(t.entry_text, None);
    assert_eq!(t.load_uri, "oku:search/rust verification");
}

#[test]
fn connect_guesses_hive_and_ipfs_schemes() {
    let t = connect("abc/def", true, false);
    assert_eq!(t.entry_text, Some(s("hive://abc/def")));
    assert_eq!(t.load_uri, "hive://abc/def");
    let t = connect("bafyabc/index.html", false, true);
    assert_eq!(t.entry_text, Some(s("ipfs://bafyabc/index.html")));
    assert_eq!(t.load_uri, "ipfs://bafyabc/index.html");
}

#[test]
fn connect_searches_for_a_malformed_url() {
    let t = connect("http://[::1", false, false);
    assert_eq!(t.entry_text, None);
    assert_eq!(t.load_uri, "oku:search/http://[::1");
}

#[test]
fn scheme_guesses() {
    assert_eq!(with_scheme_guess("x/y", true, true), "hive://x/y");
    assert_eq!(with_scheme_guess("x/y", false, true), "ipfs://x/y");
    assert_eq!(with_scheme_guess("x/y", false, false), "x/y");
}

#[test]
fn nav_bar_texts() {
    assert_eq!(nav_bar_text("oku:home"), "");
    assert_eq!(nav_bar_text("about:blank"), "");
    assert_eq!(nav_bar_text("view-source:https://a.org"), "");
    assert_eq!(nav_bar_text("oku:search/cats and dogs"), "cats and dogs");
    assert_eq!(nav_bar_text("oku:search/"), "");
    assert_eq!(nav_bar_text("https://a.org/x"), "https://a.org/x");
    assert_eq!(nav_bar_text("oku:settings"), "oku:settings");
}

#[test]
fn tab_titles() {
    assert_eq!(get_title(Some(s("https://a.org")), Some(s("A page"))), "A page");
    assert_eq!(get_title(Some(s("https://a.org")), Some(s("  \t"))), "Untitled");
    assert_eq!(get_title(Some(s("https://a.org")), None), "Untitled");
    assert_eq!(get_title(Some(s("oku:home")), None), "Oku");
    assert_eq!(get_title(Some(s("about:blank")), Some(s(""))), "Oku");
    assert_eq!(get_title(None, None), "Oku");
    assert_eq!(get_title(None, Some(s("Title"))), "Title");
}

#[test]
fn text_helpers() {
    assert!(str_eq("abc", "abc"));
    assert!(!str_eq("abc", "abd"));
    assert!(starts_with("oku:search/x", "oku:"));
    assert!(!starts_with("ok", "oku:"));
    assert_eq!(strip_prefix("oku:search/x", "oku:search/"), Some(s("x")));
    assert_eq!(strip_prefix("oku:home", "oku:search/"), None);
    assert!(blank(" \n\t "));
    assert!(blank(""));
    assert!(!blank(" x "));
}

#[test]
fn replica_identifiers_are_escaped() {
    let item = ReplicaItem::new(s("a<b>&c"), true, false);
    assert_eq!(item.id(), "a&lt;b&gt;&amp;c");
    assert!(item.writable());
    assert!(!item.home());
    let plain = ReplicaItem::new(s("plain-id"), false, true);
    assert_eq!(plain.id(), "plain-id");
    assert!(!plain.writable());
    assert!(plain.home());
}

#[test]
fn post_paths() {
    assert_eq!(get_post_path(&[0, 0, 1], &[2], "author", None), "author/115T.vox");
    assert_eq!(get_post_path(&[0, 0, 1], &[2], "author", Some(s("rust"))), "rust/115T.vox");
    assert_eq!(get_post_path(&[], &[], "a", None), "a/.vox");
    assert_eq!(get_post_path(&[57], &[], "a", None), "a/z.vox");
    assert_eq!(get_post_path(&[58], &[], "a", None), "a/21.vox");
}

#[test]
fn post_permalinks() {
    assert_eq!(get_post_permalink(true, "auth", "/posts/a.toml"), Some(s("me/posts/a")));
    assert_eq!(get_post_permalink(false, "auth", "/posts/a.toml"), Some(s("auth/posts/a")));
    assert_eq!(get_post_permalink(false, "auth", "/b.md"), Some(s("auth/b.md")));
    assert_eq!(get_post_permalink(true, "auth", "/.toml"), Some(s("me/")));
    assert_eq!(get_post_permalink(true, "auth", "posts/a.toml"), None);
}

#[test]
fn suffixes_and_pushes() {
    assert_eq!(strip_suffix("a.html", ".html"), "a");
    assert_eq!(strip_suffix("a.htm", ".html"), "a.htm");
    assert_eq!(strip_suffix("ml", ".html"), "ml");
    assert_eq!(push_path("me", "x/y"), "me/x/y");
    assert_eq!(push_path("me/", "x"), "me/x");
    assert_eq!(push_path("", "x"), "x");
    assert_eq!(push_path("me", "/abs"), "/abs");
    assert_eq!(post_file_path("posts/a.html"), "posts/a.toml");
    assert_eq!(post_file_path("posts/a"), "posts/a.toml");
}

#[test]
fn open_hints() {
    assert_eq!(parse_open_hint("true,false"), (true, false));
    assert_eq!(parse_open_hint("false,true"), (false, true));
    assert_eq!(parse_open_hint("true,true"), (true, true));
    assert_eq!(parse_open_hint(""), (false, true));
    assert_eq!(parse_open_hint("true"), (false, true));
    assert_eq!(parse_open_hint("yes,no"), (false, false));
    assert_eq!(parse_open_hint("true,false,x"), (true, false));
    assert_eq!(parse_open_hint(",true"), (false, true));
}

#[test]
fn open_requests_are_sorted_and_deduplicated() {
    let uris = vec![s("b"), s("a"), s("b"), s("c")];
    assert_eq!(unique_sorted(uris), vec![s("a"), s("b"), s("c")]);
    assert_eq!(unique_sorted(vec![]), Vec::<String>::new());
    let uris = vec![s("https://b.org"), s("https://a.org/z"), s("https://a.org")];
    assert_eq!(
        unique_sorted(uris),
        vec![s("https://a.org"), s("https://a.org/z"), s("https://b.org")]
    );
}

#[test]
fn row_texts() {
    let tags = vec![s("rust"), s("web")];
    assert_eq!(join(&tags, ", "), "rust, web");
    assert_eq!(join(&vec![], ", "), "");
    let r = bookmark_row_text("Title", "a.org", &tags);
    assert_eq!((r.title.as_str(), r.subtitle.as_str()), ("Title", "a.org\nrust, web"));
    let r = bookmark_row_text("", "a.org", &tags);
    assert_eq!((r.title.as_str(), r.subtitle.as_str()), ("a.org", "rust, web"));
    let r = bookmark_row_text("Title", "a.org", &vec![]);
    assert_eq!((r.title.as_str(), r.subtitle.as_str()), ("Title", "a.org"));
    let r = history_row_text("T", "a.org", "2024-01-01");
    assert_eq!((r.title.as_str(), r.subtitle.as_str()), ("T", "a.org\n2024-01-01"));
    let r = history_row_text(" ", "a.org", "2024-01-01");
    assert_eq!((r.title.as_str(), r.subtitle.as_str()), ("a.org", "2024-01-01"));
    let r = suggestion_row_text("T", "a.org");
    assert_eq!((r.title.as_str(), r.subtitle.as_str()), ("T", "a.org"));
    let r = suggestion_row_text("", "a.org");
    assert_eq!((r.title.as_str(), r.subtitle.as_str()), ("a.org", ""));
    assert_eq!(download_title("/home/u/Downloads/file.pdf"), "file.pdf");
    assert_eq!(download_title("/"), "/");
}

fn view(items: &[ReplicaItem]) -> Vec<(String, bool, bool)> {
    items.iter().map(|x| (x.id(), x.writable(), x.home())).collect()
}

#[test]
fn replica_lists_follow_the_node() {
    let mut store = vec![ReplicaItem::new(s("aaa"), false, false), ReplicaItem::new(s("bbb"), true, true)];
    let replicas = vec![(s("bbb"), true), (s("ccc"), false), (s("aaa"), true)];
    assert!(replicas_match(&store, &replicas));
    replicas_updated(&mut store, replicas, Some(s("ccc")));
    assert_eq!(
        view(&store),
        vec![(s("aaa"), true, false), (s("bbb"), true, false), (s("ccc"), false, true)]
    );
}

#[test]
fn replica_lists_grow_from_empty() {
    let mut store = vec![];
    let replicas = vec![(s("x<y"), false), (s("zzz"), true)];
    assert!(replicas_match(&store, &replicas));
    replicas_updated(&mut store, replicas, None);
    assert_eq!(view(&store), vec![(s("x&lt;y"), false, false), (s("zzz"), true, false)]);
}

#[test]
fn replica_items_need_a_listed_replica() {
    let store = vec![ReplicaItem::new(s("aaa"), false, false), ReplicaItem::new(s("ddd"), true, false)];
    assert!(replicas_match(&store, &vec![(s("aaa"), true)]));
    let stale_first = vec![ReplicaItem::new(s("ddd"), true, false), ReplicaItem::new(s("aaa"), false, false)];
    assert!(!replicas_match(&stale_first, &vec![(s("aaa"), true)]));
    let twice = vec![ReplicaItem::new(s("aaa"), false, false), ReplicaItem::new(s("aaa"), false, false)];
    assert!(replicas_match(&twice, &vec![(s("aaa"), true)]));
    assert!(replicas_match(&twice, &vec![(s("aaa"), true), (s("aaa"), false)]));
    let thrice = vec![
        ReplicaItem::new(s("aaa"), false, false),
        ReplicaItem::new(s("aaa"), false, false),
        ReplicaItem::new(s("aaa"), false, false),
    ];
    assert!(!replicas_match(&thrice, &vec![(s("aaa"), true)]));
}

#[test]
fn a_stale_last_replica_row_leaves_the_list() {
    let mut store = vec![ReplicaItem::new(s("aaa"), false, false), ReplicaItem::new(s("ddd"), true, false)];
    let replicas = vec![(s("aaa"), true), (s("eee"), false)];
    assert!(replicas_match(&store, &replicas));
    replicas_updated(&mut store, replicas, Some(s("eee")));
    assert_eq!(view(&store), vec![(s("aaa"), true, false), (s("eee"), false, true)]);
    let mut twice = vec![ReplicaItem::new(s("aaa"), false, false), ReplicaItem::new(s("aaa"), false, false)];
    replicas_updated(&mut twice, vec![(s("aaa"), true)], None);
    assert_eq!(view(&twice), vec![(s("aaa"), true, false)]);
}

#[test]
fn open_order_does_not_matter() {
    let a = unique_sorted(vec![s("c"), s("a"), s("b"), s("a")]);
    let b = unique_sorted(vec![s("b"), s("c"), s("c"), s("a")]);
    assert_eq!(a, b);
}

#[test]
fn open_hints_round_trip() {
    for p in [false, true] {
        for n in [false, true] {
            assert_eq!(parse_open_hint(&open_hint(p, n)), (p, n));
        }
    }
    assert_eq!(open_hint(true, false), "true,false");
}

#[test]
fn command_line_open_requests() {
    let r = launch_requests(None, None);
    assert_eq!(r.len(), 1);
    assert_eq!((r[0].uri.clone(), r[0].hint.as_str()), (None, "false,true"));
    let r = launch_requests(Some(s("https://a.org")), None);
    assert_eq!(r.len(), 1);
    assert_eq!((r[0].uri.clone(), r[0].hint.as_str()), (Some(s("https://a.org")), "false,false"));
    let r = launch_requests(Some(s("a")), Some(s("b")));
    assert_eq!(r.len(), 2);
    assert_eq!((r[0].uri.clone(), r[0].hint.as_str()), (Some(s("a")), "false,false"));
    assert_eq!((r[1].uri.clone(), r[1].hint.as_str()), (Some(s("b")), "true,false"));
    let r = launch_requests(None, Some(s("b")));
    assert_eq!((r[0].uri.clone(), r[0].hint.as_str()), (Some(s("b")), "true,false"));
}

#[test]
fn home_switches() {
    assert_eq!(ReplicaItem::new(s("aaa"), true, true).toggled_home(), None);
    assert_eq!(ReplicaItem::new(s("aaa"), true, false).toggled_home(), Some(s("aaa")));
}

#[test]
fn navigation_from_parse_outcomes() {
    let t = navigation_target("x", &UrlParse::Parsed(s("https://x/"), Some(s("x"))), &UrlParse::Malformed);
    assert_eq!((t.entry_text, t.load_uri), (Some(s("x")), s("x")));
    let t = navigation_target("x", &UrlParse::MissingScheme, &UrlParse::Parsed(s("hive://x"), None));
    assert_eq!((t.entry_text, t.load_uri), (Some(s("hive://x")), s("hive://x")));
    let t = navigation_target("x", &UrlParse::MissingScheme, &UrlParse::MissingScheme);
    assert_eq!((t.entry_text, t.load_uri), (None, s("oku:search/x")));
    let t = navigation_target("x", &UrlParse::Malformed, &UrlParse::Parsed(s("y"), None));
    assert_eq!((t.entry_text, t.load_uri), (None, s("oku:search/x")));
}

#[test]
fn colour_keys_from_parse_outcomes() {
    assert_eq!(colour_key_from("u", &UrlParse::Parsed(s("u"), Some(s("d.org")))), "d.org");
    assert_eq!(colour_key_from("u", &UrlParse::Parsed(s("u"), None)), "u");
    assert_eq!(colour_key_from("u", &UrlParse::Malformed), "u");
}
