use oku::path::{components, file_name, first_component, rest_after_first};
use oku::scheme_handlers::hive_path::{split_hive_path, HivePath};
use oku::scheme_handlers::oku_path::{OkuPath, OkuPathError};

fn s(x: &str) -> String {
    x.to_string()
}

#[test]
fn unix_path_components() {
    assert_eq!(components("a/b"), vec![s("a"), s("b")]);
    assert_eq!(components("a//b/"), vec![s("a"), s("b")]);
    assert_eq!(components("a/./b/."), vec![s("a"), s("b")]);
    assert_eq!(components("./a"), vec![s("."), s("a")]);
    assert_eq!(components("/a/../b"), vec![s("/"), s("a"), s(".."), s("b")]);
    assert_eq!(components(".a/b"), vec![s(".a"), s("b")]);
    assert_eq!(components(""), Vec::<String>::new());
    assert_eq!(components("/"), vec![s("/")]);
    assert_eq!(components("."), vec![s(".")]);
}

#[test]
fn unix_path_rest_after_first_component() {
    assert_eq!(rest_after_first("me/posts/a.html"), "posts/a.html");
    assert_eq!(rest_after_first("me//x/./y/"), "x/./y");
    assert_eq!(rest_after_first("search/a//b/"), "a//b");
    assert_eq!(rest_after_first("search"), "");
    assert_eq!(rest_after_first("/a/b.toml"), "a/b.toml");
    assert_eq!(rest_after_first("./a/b"), "a/b");
}

#[test]
fn unix_path_first_component_and_file_name() {
    assert_eq!(first_component("abc/def"), Some(s("abc")));
    assert_eq!(first_component(""), None);
    assert_eq!(file_name("/home/u/file.txt"), Some(s("file.txt")));
    assert_eq!(file_name("tmp/foo.txt/."), Some(s("foo.txt")));
    assert_eq!(file_name("a/.."), None);
    assert_eq!(file_name("/"), None);
    assert_eq!(file_name(""), None);
}

#[test]
fn oku_paths() {
    assert_eq!(OkuPath::parse(""), Ok(OkuPath::Home));
    assert_eq!(OkuPath::parse("home"), Ok(OkuPath::Home));
    assert_eq!(OkuPath::parse("tags"), Ok(OkuPath::Tags));
    assert_eq!(OkuPath::parse("tag"), Ok(OkuPath::Tags));
    assert_eq!(OkuPath::parse("tag/rust"), Ok(OkuPath::Tag(s("rust"))));
    assert_eq!(OkuPath::parse("me"), Ok(OkuPath::Me(None)));
    assert_eq!(
        OkuPath::parse("me/posts/a.html"),
        Ok(OkuPath::Me(Some(s("posts/a.html"))))
    );
    assert_eq!(OkuPath::parse("follow"), Err(OkuPathError::MissingAuthorId));
    assert_eq!(OkuPath::parse("follow/abc"), Ok(OkuPath::ToggleFollow(s("abc"))));
    assert_eq!(OkuPath::parse("block"), Err(OkuPathError::MissingAuthorId));
    assert_eq!(OkuPath::parse("block/xyz"), Ok(OkuPath::ToggleBlock(s("xyz"))));
    assert_eq!(OkuPath::parse("delete"), Err(OkuPathError::MissingPostPath));
    assert_eq!(
        OkuPath::parse("delete/posts/x.toml"),
        Ok(OkuPath::Delete(s("posts/x.toml")))
    );
    assert_eq!(
        OkuPath::parse("search/hello world"),
        Ok(OkuPath::Search(s("hello world")))
    );
    assert_eq!(OkuPath::parse("search"), Ok(OkuPath::Search(s(""))));
    assert_eq!(
        OkuPath::parse("abc/posts/x.html"),
        Ok(OkuPath::User(s("abc"), Some(s("posts/x.html"))))
    );
    assert_eq!(OkuPath::parse("abc"), Ok(OkuPath::User(s("abc"), None)));
}

#[test]
fn hive_paths() {
    assert_eq!(
        split_hive_path("abc/index.html"),
        Some((s("abc"), s("/index.html")))
    );
    assert_eq!(split_hive_path("abc"), Some((s("abc"), s("/"))));
    assert_eq!(split_hive_path("abc/d//e/"), Some((s("abc"), s("/d//e"))));
    assert_eq!(split_hive_path(""), None);
    assert_eq!(split_hive_path("/abc"), Some((s("/"), s("/abc"))));
}

#[test]
fn hive_path_names_its_replica() {
    match HivePath::from_parts(s("t"), s("/x"), true, Some(vec![1u8; 32])) {
        Some(HivePath::ByTicket(t, p)) => {
            assert_eq!(t, "t");
            assert_eq!(p, "/x");
        }
        _ => panic!("a ticket wins"),
    }
    match HivePath::from_parts(s("t"), s("/x"), false, Some(vec![1u8; 32])) {
        Some(HivePath::ById(id, p)) => {
            assert_eq!(id, vec![1u8; 32]);
            assert_eq!(p, "/x");
        }
        _ => panic!("a namespace identifier names the replica"),
    }
    assert!(HivePath::from_parts(s("t"), s("/x"), false, None).is_none());
}
