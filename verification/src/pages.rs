use crate::text::concat;
use vstd::prelude::*;

verus! {

/// A page of the site that the OkuNet provider writes: its front matter
/// (as TOML text) between two `---` lines, then the page's body.
pub open spec fn page_text(front_matter: Seq<char>, body: Seq<char>) -> Seq<char> {
    "---\n"@ + front_matter + "\n---\n"@ + body
}

fn page(front_matter: &str, body: &str) -> (r: String)
    ensures
        r@ == page_text(front_matter@, body@),
{
    let mut r = String::from_str("---\n");
    r.append(front_matter);
    r.append("\n---\n");
    r.append(body);
    r
}

/// The body of a post's page: the note's text, as Markdown, left raw.
pub open spec fn post_body(note_body: Seq<char>) -> Seq<char> {
    "{% markdown %}\n{% raw %}\n"@ + note_body + "\n{% endraw %}\n{% endmarkdown %}"@
}

/// The page of a post, given its front matter and the note's text.
pub fn post_page(front_matter: &str, note_body: &str) -> (r: String)
    ensures
        r@ == page_text(front_matter@, post_body(note_body@)),
{
    let mut body = String::from_str("{% markdown %}\n{% raw %}\n");
    body.append(note_body);
    body.append("\n{% endraw %}\n{% endmarkdown %}");
    page(front_matter, body.as_str())
}

/// What a profile page lists as posts: those of the author, named by the
/// author's identifier, or `empty` when there are none.
pub open spec fn profile_posts_argument(author_id: Seq<char>, has_posts: bool) -> Seq<char> {
    if has_posts {
        author_id
    } else {
        "empty"@
    }
}

/// The page of a user's profile.
pub fn profile_page(front_matter: &str, author_id: &str, has_posts: bool) -> (r: String)
    ensures
        r@ == page_text(
            front_matter@,
            "{% include profile.voxs posts = "@ + profile_posts_argument(author_id@, has_posts)
                + " %}\n"@,
        ),
{
    let mut body = String::from_str("{% include profile.voxs posts = ");
    if has_posts {
        body.append(author_id);
    } else {
        body.append("empty");
    }
    body.append(" %}\n");
    page(front_matter, body.as_str())
}

/// The page of a tag.
pub fn tag_page(front_matter: &str, tag: &str) -> (r: String)
    ensures
        r@ == page_text(front_matter@, "{% include tag.voxs posts = "@ + tag@ + " %}\n"@),
{
    let mut body = String::from_str("{% include tag.voxs posts = ");
    body.append(tag);
    body.append(" %}\n");
    page(front_matter, body.as_str())
}

/// The body of the search page: the posts found, if any.
pub open spec fn search_body() -> Seq<char> {
    "{% if search[0] %}\n{% include search.voxs posts = search %}\n{% else %}\n{% include search.voxs posts = \"\" %}\n{% endif %}\n"@
}

/// The search page.
pub fn search_page(front_matter: &str) -> (r: String)
    ensures
        r@ == page_text(front_matter@, search_body()),
{
    page(
        front_matter,
        "{% if search[0] %}\n{% include search.voxs posts = search %}\n{% else %}\n{% include search.voxs posts = \"\" %}\n{% endif %}\n",
    )
}

/// The page that shows the source of another page.
pub fn source_page(front_matter: &str, html: &str) -> (r: String)
    ensures
        r@ == page_text(front_matter@, html@),
{
    page(front_matter, html)
}

/// The file of a user's profile page.
pub fn profile_page_path(author_id: &str) -> (r: String)
    ensures
        r@ == author_id@ + ".vox"@,
{
    concat(author_id, ".vox")
}

/// The file of a tag's page.
pub fn tag_page_path(tag: &str) -> (r: String)
    ensures
        r@ == "/tag/"@ + tag@ + ".vox"@,
{
    let mut r = String::from_str("/tag/");
    r.append(tag);
    r.append(".vox");
    r
}

/// Where the site puts the rendered page of a permalink.
pub fn rendered_path(permalink: &str) -> (r: String)
    ensures
        r@ == "output/"@ + permalink@,
{
    concat("output/", permalink)
}

/// The front matter of a page that is not a post: its layout, the pages it
/// depends on (if it names them), its permalink and its title.
pub struct PageFrontMatter {
    pub layout: String,
    pub depends: Option<Vec<String>>,
    pub permalink: String,
    pub title: String,
}

/// The front matter of the search page for `query`.
pub fn search_front_matter(query: &str) -> (r: PageFrontMatter)
    ensures
        r.layout@ == "default"@,
        r.depends matches Some(d) && d@.len() == 1 && d@[0]@ == "search"@,
        r.permalink@ == "search"@,
        r.title@ == query@,
{
    let mut depends: Vec<String> = Vec::new();
    depends.push(String::from_str("search"));
    PageFrontMatter {
        layout: String::from_str("default"),
        depends: Some(depends),
        permalink: String::from_str("search"),
        title: String::from_str(query),
    }
}

/// The front matter of the page that shows the source of the page at
/// `uri`; `file_id` names the generated file.
pub fn source_front_matter(file_id: &str, uri: &str) -> (r: PageFrontMatter)
    ensures
        r.layout@ == "view_source"@,
        r.depends is None,
        r.permalink@ == file_id@ + ".html"@,
        r.title@ == uri@,
{
    PageFrontMatter {
        layout: String::from_str("view_source"),
        depends: None,
        permalink: concat(file_id, ".html"),
        title: String::from_str(uri),
    }
}

/// A user that a profile's owner follows, as the profile shows them: the
/// author identifier, the user's name, and whom they follow.
pub struct FollowedUser {
    pub id: String,
    pub name: String,
    pub following: Vec<String>,
}

/// A followed user as the profile shows them: the name and followed users
/// of their identity, if the node found one; else the author identifier as
/// name and nobody followed.
pub fn followed_user(id: String, identity: Option<(String, Vec<String>)>) -> (r: FollowedUser)
    ensures
        r.id@ == id@,
        match identity {
            Some((name, following)) => r.name@ == name@ && r.following@ == following@,
            None => r.name@ == id@ && r.following@.len() == 0,
        },
{
    match identity {
        Some((name, following)) => FollowedUser { id, name, following },
        None => {
            let name = id.clone();
            FollowedUser { id, name, following: Vec::new() }
        },
    }
}

/// The front matter of a user's profile page.
pub struct UserFrontMatter {
    pub layout: String,
    pub permalink: String,
    pub title: String,
    pub author_id: String,
    pub is_followed: bool,
    pub is_blocked: bool,
    pub is_me: bool,
    /// The pages the profile depends on, when the user has posts.
    pub depends: Option<Vec<String>>,
    /// An empty list, when the user has no posts.
    pub empty: Option<Vec<String>>,
    pub following: Vec<FollowedUser>,
}

/// The front matter of the profile of the user `author_id`: titled with the
/// name of their identity, if they have one, else with the identifier; the
/// permalink is the identifier with `.html`; a user with posts depends on
/// the page of their posts, one without is marked empty.
pub fn user_front_matter(
    author_id: &str,
    name: Option<String>,
    following: Vec<FollowedUser>,
    is_followed: bool,
    is_blocked: bool,
    is_me: bool,
    has_posts: bool,
) -> (r: UserFrontMatter)
    ensures
        r.layout@ == "default"@,
        r.permalink@ == author_id@ + ".html"@,
        match name {
            Some(n) => r.title@ == n@,
            None => r.title@ == author_id@,
        },
        r.author_id@ == author_id@,
        r.is_followed == is_followed,
        r.is_blocked == is_blocked,
        r.is_me == is_me,
        has_posts ==> (r.depends matches Some(d) && d@.len() == 1 && d@[0]@ == author_id@),
        has_posts ==> r.empty is None,
        !has_posts ==> r.depends is None,
        !has_posts ==> (r.empty matches Some(e) && e@.len() == 0),
        r.following@ == following@,
{
    let title = match name {
        Some(n) => n,
        None => String::from_str(author_id),
    };
    let (depends, empty) = if has_posts {
        let mut d: Vec<String> = Vec::new();
        d.push(String::from_str(author_id));
        (Some(d), None)
    } else {
        (None, Some(Vec::new()))
    };
    UserFrontMatter {
        layout: String::from_str("default"),
        permalink: concat(author_id, ".html"),
        title,
        author_id: String::from_str(author_id),
        is_followed,
        is_blocked,
        is_me,
        depends,
        empty,
        following,
    }
}

} // verus!
