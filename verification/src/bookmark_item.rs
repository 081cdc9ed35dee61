use crate::text::{encode_text, escape_text};
use vstd::prelude::*;

verus! {

/// A bookmark as the bookmarks sidebar lists it: every text is kept
/// HTML-escaped, ready to be shown as markup.
pub struct BookmarkItem {
    pub(crate) url: String,
    pub(crate) title: String,
    pub(crate) body: String,
    pub(crate) tags: Vec<String>,
}

/// The plain values a bookmark item holds.
pub struct BookmarkItemView {
    pub url: Seq<char>,
    pub title: Seq<char>,
    pub body: Seq<char>,
    pub tags: Seq<Seq<char>>,
}

/// The texts of a list of strings.
pub open spec fn texts_of(v: Seq<String>) -> Seq<Seq<char>> {
    v.map_values(|s: String| s@)
}

/// Each text HTML-escaped.
pub open spec fn escape_all(v: Seq<Seq<char>>) -> Seq<Seq<char>> {
    v.map_values(|s: Seq<char>| escape_text(s))
}

impl View for BookmarkItem {
    type V = BookmarkItemView;

    closed spec fn view(&self) -> BookmarkItemView {
        BookmarkItemView {
            url: self.url@,
            title: self.title@,
            body: self.body@,
            tags: texts_of(self.tags@),
        }
    }
}

/// Each text of the list HTML-escaped.
fn encode_all(v: &Vec<String>) -> (r: Vec<String>)
    ensures
        texts_of(r@) == escape_all(texts_of(v@)),
{
    let mut r: Vec<String> = Vec::new();
    let mut k: usize = 0;
    while k < v.len()
        invariant
            k <= v@.len(),
            texts_of(r@) == escape_all(texts_of(v@)).take(k as int),
        decreases v@.len() - k,
    {
        let ghost before = r@;
        r.push(encode_text(v[k].as_str()));
        assert(texts_of(r@) =~= texts_of(before).push(escape_text(v@[k as int]@)));
        assert(escape_all(texts_of(v@)).take(k + 1) =~= escape_all(texts_of(v@)).take(
            k as int,
        ).push(escape_text(v@[k as int]@)));
        k = k + 1;
    }
    assert(escape_all(texts_of(v@)).take(v@.len() as int) =~= escape_all(texts_of(v@)));
    r
}

impl BookmarkItem {
    /// A new item. `url` is the bookmark's address as it is displayed;
    /// every text is stored HTML-escaped, each tag on its own.
    pub fn new(url: String, title: String, body: String, tags: Vec<String>) -> (r: Self)
        ensures
            r@.url == escape_text(url@),
            r@.title == escape_text(title@),
            r@.body == escape_text(body@),
            r@.tags == escape_all(texts_of(tags@)),
    {
        BookmarkItem {
            url: encode_text(url.as_str()),
            title: encode_text(title.as_str()),
            body: encode_text(body.as_str()),
            tags: encode_all(&tags),
        }
    }

    /// The address, as escaped for display.
    pub fn url(&self) -> (r: String)
        ensures
            r@ == self@.url,
    {
        self.url.clone()
    }

    /// The title, as escaped for display.
    pub fn title(&self) -> (r: String)
        ensures
            r@ == self@.title,
    {
        self.title.clone()
    }

    /// The note's text, as escaped for display.
    pub fn body(&self) -> (r: String)
        ensures
            r@ == self@.body,
    {
        self.body.clone()
    }

    /// The tags, each as escaped for display.
    pub fn tags(&self) -> (r: Vec<String>)
        ensures
            texts_of(r@) == self@.tags,
    {
        let mut r: Vec<String> = Vec::new();
        let mut k: usize = 0;
        while k < self.tags.len()
            invariant
                k <= self.tags@.len(),
                texts_of(r@) == texts_of(self.tags@).take(k as int),
            decreases self.tags@.len() - k,
        {
            let ghost before = r@;
            r.push(self.tags[k].clone());
            assert(texts_of(r@) =~= texts_of(before).push(self.tags@[k as int]@));
            assert(texts_of(self.tags@).take(k + 1) =~= texts_of(self.tags@).take(k as int).push(
                self.tags@[k as int]@,
            ));
            k = k + 1;
        }
        assert(texts_of(self.tags@).take(self.tags@.len() as int) =~= texts_of(self.tags@));
        r
    }
}

} // verus!
