use oku::note_tags::NoteTags;
use oku::scheme_handlers::oku_path::{OkuPath, OkuPathError};
use oku::scheme_handlers::oku_route::{
    oku_get_route, oku_post_route, okunet_fetch, shows_okunet_refresh, OkuOperation, OkuPage,
    OkuRouteError, OkunetFetch,
};
use oku::text::{remove_first, trim};

fn s(x: &str) -> String {
    x.to_string()
}

#[test]
fn first_occurrences_are_removed() {
    assert_eq!(remove_first("oku:home", "oku:"), "home");
    assert_eq!(remove_first("xoku:aoku:b", "oku:"), "xaoku:b");
    assert_eq!(remove_first("hive://abc/d", "hive://"), "abc/d");
    assert_eq!(remove_first("nothing", "oku:"), "nothing");
    assert_eq!(remove_first("ok", "oku:"), "ok");
    assert_eq!(remove_first("abc", ""), "abc");
}

#[test]
fn trimming_white_space() {
    assert_eq!(trim("  tag \t"), "tag");
    assert_eq!(trim("\u{3000}a b\u{a0}"), "a b");
    assert_eq!(trim("   "), "");
    assert_eq!(trim(""), "");
    assert_eq!(trim("x"), "x");
}

#[test]
fn okunet_fetches() {
    assert_eq!(okunet_fetch("oku:home"), OkunetFetch::Users);
    assert_eq!(okunet_fetch("oku:"), OkunetFetch::Users);
    assert_eq!(okunet_fetch("oku:abcd"), OkunetFetch::User(s("abcd")));
    assert_eq!(
        okunet_fetch("oku:abcd/posts/x.html"),
        OkunetFetch::Post(s("abcd"), s("posts/x.toml"))
    );
    assert_eq!(okunet_fetch("oku:tags"), OkunetFetch::Nothing);
    assert_eq!(okunet_fetch("oku:me"), OkunetFetch::Nothing);
    assert_eq!(okunet_fetch("oku:follow"), OkunetFetch::Nothing);
    assert!(shows_okunet_refresh("oku:home"));
    assert!(shows_okunet_refresh("oku:abcd/p"));
    assert!(!shows_okunet_refresh("oku:search/q"));
    assert!(!shows_okunet_refresh("oku:block"));
}

#[test]
fn get_routes() {
    assert_eq!(oku_get_route("oku:home"), Ok(OkuPage::Home));
    assert_eq!(oku_get_route("oku:tags"), Ok(OkuPage::Tags));
    assert_eq!(oku_get_route("oku:tag"), Ok(OkuPage::Tags));
    assert_eq!(oku_get_route("oku:tag/rust"), Ok(OkuPage::Tag(s("rust"))));
    assert_eq!(oku_get_route("oku:me"), Ok(OkuPage::SelfProfile));
    assert_eq!(oku_get_route("oku:me/a/b.html"), Ok(OkuPage::SelfPost(s("a/b.html"))));
    assert_eq!(oku_get_route("oku:xyz"), Ok(OkuPage::User(s("xyz"))));
    assert_eq!(oku_get_route("oku:xyz/p.html"), Ok(OkuPage::Post(s("xyz"), s("p.html"))));
    assert_eq!(oku_get_route("oku:search/cats"), Ok(OkuPage::Search(s("cats"))));
    assert_eq!(
        oku_get_route("oku:follow/xyz"),
        Err(OkuRouteError::Unsupported(OkuPath::ToggleFollow(s("xyz"))))
    );
    assert_eq!(
        oku_get_route("oku:block"),
        Err(OkuRouteError::Path(OkuPathError::MissingAuthorId))
    );
}

#[test]
fn post_routes() {
    assert_eq!(oku_post_route("oku:follow/xyz"), Ok(OkuOperation::ToggleFollow(s("xyz"))));
    assert_eq!(oku_post_route("oku:block/xyz"), Ok(OkuOperation::ToggleBlock(s("xyz"))));
    assert_eq!(oku_post_route("oku:delete/a/b.toml"), Ok(OkuOperation::Delete(s("a/b.toml"))));
    assert_eq!(
        oku_post_route("oku:delete"),
        Err(OkuRouteError::Path(OkuPathError::MissingPostPath))
    );
    assert_eq!(oku_post_route("oku:home"), Err(OkuRouteError::Unsupported(OkuPath::Home)));
}

#[test]
fn tag_entries() {
    let mut tags = NoteTags::new();
    assert!(tags.apply_tag_entry(s(" rust ")));
    assert_eq!(tags.tags(), vec![s(" rust ")]);
    assert!(!tags.apply_tag_entry(s("   ")));
    assert!(tags.apply_tag_entry(s("rust")));
    assert!(!tags.apply_tag_entry(s(" rust")));
    assert!(tags.apply_tag_entry(s("web")));
    assert_eq!(tags.tags(), vec![s(" rust "), s("rust"), s("web")]);
}
