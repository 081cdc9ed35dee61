use crate::path::{file_name, file_name_spec};
use crate::text::{blank, concat, is_blank};
use vstd::prelude::*;

verus! {

/// The title and subtitle of a list row.
pub struct RowText {
    pub title: String,
    pub subtitle: String,
}

/// The view of a row's text.
pub open spec fn row_view(r: RowText) -> (Seq<char>, Seq<char>) {
    (r.title@, r.subtitle@)
}

/// Texts joined with `sep` between them.
pub open spec fn join_texts(parts: Seq<Seq<char>>, sep: Seq<char>) -> Seq<char>
    decreases parts.len(),
{
    if parts.len() == 0 {
        Seq::empty()
    } else if parts.len() == 1 {
        parts[0]
    } else {
        join_texts(parts.drop_last(), sep) + sep + parts.last()
    }
}

/// The texts joined with `sep` between them.
pub fn join(parts: &Vec<String>, sep: &str) -> (r: String)
    ensures
        r@ == join_texts(parts@.map_values(|s: String| s@), sep@),
{
    let ghost views = parts@.map_values(|s: String| s@);
    let mut r = String::new();
    let mut k: usize = 0;
    while k < parts.len()
        invariant
            views == parts@.map_values(|s: String| s@),
            k <= parts@.len(),
            r@ == join_texts(views.take(k as int), sep@),
        decreases parts@.len() - k,
    {
        assert(views.take(k + 1).drop_last() =~= views.take(k as int));
        if k > 0 {
            r.append(sep);
        }
        r.append(parts[k].as_str());
        k = k + 1;
    }
    assert(views.take(parts@.len() as int) =~= views);
    r
}

/// The row of a bookmark: its title over its address and tags, or, for a
/// bookmark without a title, its address over its tags.
pub open spec fn bookmark_row_spec(title: Seq<char>, url: Seq<char>, tags: Seq<Seq<char>>) -> (
    Seq<char>,
    Seq<char>,
) {
    let joined = join_texts(tags, ", "@);
    if is_blank(title) {
        (url, joined)
    } else if is_blank(joined) {
        (title, url)
    } else {
        (title, url + "\n"@ + joined)
    }
}

/// The text of a bookmark's row; `url` is the address as displayed.
pub fn bookmark_row_text(title: &str, url: &str, tags: &Vec<String>) -> (r: RowText)
    ensures
        row_view(r) == bookmark_row_spec(title@, url@, tags@.map_values(|s: String| s@)),
{
    let joined = join(tags, ", ");
    if blank(title) {
        RowText { title: String::from_str(url), subtitle: joined }
    } else if blank(joined.as_str()) {
        RowText { title: String::from_str(title), subtitle: String::from_str(url) }
    } else {
        let mut subtitle = concat(url, "\n");
        subtitle.append(joined.as_str());
        RowText { title: String::from_str(title), subtitle }
    }
}

/// The row of a visit: its title over its address and time, or, for a
/// visit without a title, its address over its time.
pub open spec fn history_row_spec(title: Seq<char>, uri: Seq<char>, timestamp: Seq<char>) -> (
    Seq<char>,
    Seq<char>,
) {
    if is_blank(title) {
        (uri, timestamp)
    } else {
        (title, uri + "\n"@ + timestamp)
    }
}

/// The text of a visit's row; `uri` is the address as displayed.
pub fn history_row_text(title: &str, uri: &str, timestamp: &str) -> (r: RowText)
    ensures
        row_view(r) == history_row_spec(title@, uri@, timestamp@),
{
    if blank(title) {
        RowText { title: String::from_str(uri), subtitle: String::from_str(timestamp) }
    } else {
        let mut subtitle = concat(uri, "\n");
        subtitle.append(timestamp);
        RowText { title: String::from_str(title), subtitle }
    }
}

/// The row of a suggestion: its title over its address, or its address
/// alone.
pub open spec fn suggestion_row_spec(title: Seq<char>, uri: Seq<char>) -> (Seq<char>, Seq<char>) {
    if is_blank(title) {
        (uri, Seq::empty())
    } else {
        (title, uri)
    }
}

/// The text of a suggestion's row; `uri` is the address as displayed.
pub fn suggestion_row_text(title: &str, uri: &str) -> (r: RowText)
    ensures
        row_view(r) == suggestion_row_spec(title@, uri@),
{
    if blank(title) {
        RowText { title: String::from_str(uri), subtitle: String::new() }
    } else {
        RowText { title: String::from_str(title), subtitle: String::from_str(uri) }
    }
}

/// The title of a download's row: the file name of its destination, or
/// the whole destination if it has none.
pub open spec fn download_title_spec(destination: Seq<char>) -> Seq<char> {
    match file_name_spec(destination) {
        Some(f) => f,
        None => destination,
    }
}

/// The title of the row of a download to `destination`.
pub fn download_title(destination: &str) -> (r: String)
    ensures
        r@ == download_title_spec(destination@),
{
    match file_name(destination) {
        Some(f) => f,
        None => String::from_str(destination),
    }
}

} // verus!
