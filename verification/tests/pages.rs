use oku::pages::{
    followed_user, post_page, profile_page, profile_page_path, rendered_path, search_front_matter,
    search_page, source_front_matter, source_page, tag_page, tag_page_path, user_front_matter,
};

fn s(x: &str) -> String {
    x.to_string()
}

#[test]
fn page_texts() {
    assert_eq!(
        post_page("title = \"T\"", "Hello"),
        "---\ntitle = \"T\"\n---\n{% markdown %}\n{% raw %}\nHello\n{% endraw %}\n{% endmarkdown %}"
    );
    assert_eq!(
        profile_page("a = 1", "abc", true),
        "---\na = 1\n---\n{% include profile.voxs posts = abc %}\n"
    );
    assert_eq!(
        profile_page("a = 1", "abc", false),
        "---\na = 1\n---\n{% include profile.voxs posts = empty %}\n"
    );
    assert_eq!(tag_page("", "rust"), "---\n\n---\n{% include tag.voxs posts = rust %}\n");
    assert_eq!(
        search_page("t"),
        "---\nt\n---\n{% if search[0] %}\n{% include search.voxs posts = search %}\n{% else %}\n{% include search.voxs posts = \"\" %}\n{% endif %}\n"
    );
    assert_eq!(source_page("t", "<p>x</p>"), "---\nt\n---\n<p>x</p>");
}

#[test]
fn page_paths() {
    assert_eq!(profile_page_path("abc"), "abc.vox");
    assert_eq!(tag_page_path("rust"), "/tag/rust.vox");
    assert_eq!(rendered_path("tag/rust"), "output/tag/rust");
}

#[test]
fn front_matters() {
    let f = search_front_matter("cats");
    assert_eq!((f.layout.as_str(), f.permalink.as_str(), f.title.as_str()), ("default", "search", "cats"));
    assert_eq!(f.depends, Some(vec![s("search")]));
    let f = source_front_matter("0191", "https://a.org");
    assert_eq!(
        (f.layout.as_str(), f.permalink.as_str(), f.title.as_str()),
        ("view_source", "0191.html", "https://a.org")
    );
    assert_eq!(f.depends, None);
}

#[test]
fn profile_front_matter() {
    let known = followed_user(s("f1"), Some((s("Fay"), vec![s("x")])));
    assert_eq!((known.id.as_str(), known.name.as_str()), ("f1", "Fay"));
    assert_eq!(known.following, vec![s("x")]);
    let unknown = followed_user(s("f2"), None);
    assert_eq!((unknown.id.as_str(), unknown.name.as_str()), ("f2", "f2"));
    assert!(unknown.following.is_empty());
    let f = user_front_matter("abc", Some(s("Ann")), vec![known, unknown], true, false, false, true);
    assert_eq!((f.layout.as_str(), f.permalink.as_str(), f.title.as_str()), ("default", "abc.html", "Ann"));
    assert_eq!(f.author_id, "abc");
    assert!(f.is_followed && !f.is_blocked && !f.is_me);
    assert_eq!(f.depends, Some(vec![s("abc")]));
    assert_eq!(f.empty, None);
    assert_eq!(f.following.len(), 2);
    let g = user_front_matter("abc", None, vec![], false, true, true, false);
    assert_eq!(g.title, "abc");
    assert_eq!(g.depends, None);
    assert_eq!(g.empty, Some(vec![]));
}
