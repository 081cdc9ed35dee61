use crate::path::{
    components, first_kept_from, is_kept_piece, join_pieces, kept_pieces, last_kept_end,
    path_components, path_rest, rest_after_first, split_pieces,
};
use crate::text::str_eq;
use vstd::prelude::*;

verus! {

/// A request on the `oku:` scheme. Author identifiers are carried as the
/// text of their path component; decoding them is the node's business.
#[derive(Debug, Clone, PartialEq, Eq)]
pub enum OkuPath {
    Home,
    Me(Option<String>),
    Tag(String),
    Tags,
    User(String, Option<String>),
    ToggleFollow(String),
    ToggleBlock(String),
    Delete(String),
    Search(String),
}

/// The plain values of an `oku:` request.
pub enum OkuPathView {
    Home,
    Me(Option<Seq<char>>),
    Tag(Seq<char>),
    Tags,
    User(Seq<char>, Option<Seq<char>>),
    ToggleFollow(Seq<char>),
    ToggleBlock(Seq<char>),
    Delete(Seq<char>),
    Search(Seq<char>),
}

/// The view of an optional string.
pub open spec fn opt_view(o: Option<String>) -> Option<Seq<char>> {
    match o {
        Some(s) => Some(s@),
        None => None,
    }
}

impl View for OkuPath {
    type V = OkuPathView;

    open spec fn view(&self) -> OkuPathView {
        match self {
            OkuPath::Home => OkuPathView::Home,
            OkuPath::Me(p) => OkuPathView::Me(opt_view(*p)),
            OkuPath::Tag(t) => OkuPathView::Tag(t@),
            OkuPath::Tags => OkuPathView::Tags,
            OkuPath::User(a, p) => OkuPathView::User(a@, opt_view(*p)),
            OkuPath::ToggleFollow(a) => OkuPathView::ToggleFollow(a@),
            OkuPath::ToggleBlock(a) => OkuPathView::ToggleBlock(a@),
            OkuPath::Delete(p) => OkuPathView::Delete(p@),
            OkuPath::Search(q) => OkuPathView::Search(q@),
        }
    }
}

/// Why an `oku:` path names no request.
#[derive(Debug, Clone, Copy, PartialEq, Eq, Structural)]
pub enum OkuPathError {
    /// `follow` or `block` without an author after it.
    MissingAuthorId,
    /// `delete` without a post path after it.
    MissingPostPath,
}

/// The request that an `oku:` path names. The first component chooses
/// the request (no component at all means `home`); the rest of the path,
/// when there is a second component, is the post path of `me`, of a user
/// and of `delete`; `tag` and `follow`/`block` take the second component;
/// `search` takes the rest of the path, empty if there is none; any other
/// first component is a user's author identifier.
pub open spec fn oku_path_spec(s: Seq<char>) -> Result<OkuPathView, OkuPathError> {
    let cs = path_components(s);
    let first = if cs.len() == 0 {
        "home"@
    } else {
        cs[0]
    };
    let post = if cs.len() >= 2 {
        Some(path_rest(s))
    } else {
        None
    };
    if first == "home"@ {
        Ok(OkuPathView::Home)
    } else if first == "tags"@ {
        Ok(OkuPathView::Tags)
    } else if first == "tag"@ {
        if cs.len() >= 2 {
            Ok(OkuPathView::Tag(cs[1]))
        } else {
            Ok(OkuPathView::Tags)
        }
    } else if first == "me"@ {
        Ok(OkuPathView::Me(post))
    } else if first == "follow"@ {
        if cs.len() >= 2 {
            Ok(OkuPathView::ToggleFollow(cs[1]))
        } else {
            Err(OkuPathError::MissingAuthorId)
        }
    } else if first == "block"@ {
        if cs.len() >= 2 {
            Ok(OkuPathView::ToggleBlock(cs[1]))
        } else {
            Err(OkuPathError::MissingAuthorId)
        }
    } else if first == "delete"@ {
        match post {
            Some(p) => Ok(OkuPathView::Delete(p)),
            None => Err(OkuPathError::MissingPostPath),
        }
    } else if first == "search"@ {
        Ok(OkuPathView::Search(path_rest(s)))
    } else {
        Ok(OkuPathView::User(first, post))
    }
}

/// The view of a parse outcome.
pub open spec fn oku_result_view(r: Result<OkuPath, OkuPathError>) -> Result<
    OkuPathView,
    OkuPathError,
> {
    match r {
        Ok(p) => Ok(p@),
        Err(e) => Err(e),
    }
}

impl OkuPath {
    /// Reads the path of an `oku:` URI (the text after `oku:`).
    pub fn parse(path: &str) -> (r: Result<OkuPath, OkuPathError>)
        ensures
            oku_result_view(r) == oku_path_spec(path@),
    {
        let mut cs = components(path);
        let n = cs.len();
        let ghost spec_cs = path_components(path@);
        let first = if n == 0 {
            String::from_str("home")
        } else {
            cs[0].clone()
        };
        let post = if n >= 2 {
            Some(rest_after_first(path))
        } else {
            None
        };
        proof {
            reveal_strlit("home");
            reveal_strlit("tags");
            reveal_strlit("tag");
            reveal_strlit("me");
            reveal_strlit("follow");
            reveal_strlit("block");
            reveal_strlit("delete");
            reveal_strlit("search");
        }
        let f = first.as_str();
        if str_eq(f, "home") {
            Ok(OkuPath::Home)
        } else if str_eq(f, "tags") {
            Ok(OkuPath::Tags)
        } else if str_eq(f, "tag") {
            if n >= 2 {
                Ok(OkuPath::Tag(cs.swap_remove(1)))
            } else {
                Ok(OkuPath::Tags)
            }
        } else if str_eq(f, "me") {
            Ok(OkuPath::Me(post))
        } else if str_eq(f, "follow") {
            if n >= 2 {
                Ok(OkuPath::ToggleFollow(cs.swap_remove(1)))
            } else {
                Err(OkuPathError::MissingAuthorId)
            }
        } else if str_eq(f, "block") {
            if n >= 2 {
                Ok(OkuPath::ToggleBlock(cs.swap_remove(1)))
            } else {
                Err(OkuPathError::MissingAuthorId)
            }
        } else if str_eq(f, "delete") {
            match post {
                Some(p) => Ok(OkuPath::Delete(p)),
                None => Err(OkuPathError::MissingPostPath),
            }
        } else if str_eq(f, "search") {
            Ok(OkuPath::Search(rest_after_first(path)))
        } else {
            Ok(OkuPath::User(first, post))
        }
    }
}

proof fn lemma_split_nonempty(s: Seq<char>)
    ensures
        split_pieces(s).len() >= 1,
    decreases s.len(),
{
    if s.len() > 0 {
        lemma_split_nonempty(s.drop_last());
    }
}

/// A text without `/` is a single piece.
proof fn lemma_split_without_slash(s: Seq<char>)
    requires
        forall|i: int| 0 <= i < s.len() ==> s[i] != '/',
    ensures
        split_pieces(s) == seq![s],
    decreases s.len(),
{
    if s.len() == 0 {
        assert(s =~= Seq::<char>::empty());
        assert(split_pieces(s) =~= seq![s]);
    } else {
        lemma_split_without_slash(s.drop_last());
        assert(s[s.len() - 1] != '/');
        assert(s.drop_last().push(s.last()) =~= s);
        assert(seq![s.drop_last()].update(0, s.drop_last().push(s.last())) =~= seq![s]);
    }
}

/// Text joined at a `/` splits into the pieces of each side.
proof fn lemma_split_at_slash(p: Seq<char>, q: Seq<char>)
    ensures
        split_pieces(p + seq!['/'] + q) == split_pieces(p) + split_pieces(q),
    decreases q.len(),
{
    let s = p + seq!['/'] + q;
    if q.len() == 0 {
        assert(s.drop_last() =~= p);
        assert(split_pieces(p).push(Seq::empty()) =~= split_pieces(p) + seq![Seq::<char>::empty()]);
    } else {
        assert(s.drop_last() =~= p + seq!['/'] + q.drop_last());
        lemma_split_at_slash(p, q.drop_last());
        lemma_split_nonempty(q.drop_last());
        let a = split_pieces(p);
        let b = split_pieces(q.drop_last());
        assert(s.last() == q.last());
        if q.last() == '/' {
            assert((a + b).push(Seq::empty()) =~= a + b.push(Seq::empty()));
        } else {
            assert((a + b).update((a + b).len() - 1, (a + b).last().push(q.last())) =~= a + b.update(
                b.len() - 1,
                b.last().push(q.last()),
            ));
        }
    }
}

/// Joining the pieces of a text at `/` gives the text back.
proof fn lemma_join_split(q: Seq<char>)
    ensures
        join_pieces(split_pieces(q)) == q,
    decreases q.len(),
{
    if q.len() > 0 {
        lemma_join_split(q.drop_last());
        lemma_split_nonempty(q.drop_last());
        let p = split_pieces(q.drop_last());
        if q.last() == '/' {
            assert(p.push(Seq::empty()).drop_last() =~= p);
            assert(q.drop_last() + seq!['/'] + Seq::<char>::empty() =~= q);
        } else {
            let p2 = p.update(p.len() - 1, p.last().push(q.last()));
            if p.len() == 1 {
                assert(q.drop_last().push(q.last()) =~= q);
            } else {
                assert(p2.drop_last() =~= p.drop_last());
                assert(join_pieces(p.drop_last()) + seq!['/'] + p.last().push(q.last()) =~= (
                join_pieces(p.drop_last()) + seq!['/'] + p.last()).push(q.last()));
                assert(q.drop_last().push(q.last()) =~= q);
            }
        }
    }
}

/// The kept pieces of a sequence of pieces that starts with a kept piece
/// start with that piece.
proof fn lemma_kept_starts_with(x: Seq<char>, ps: Seq<Seq<char>>)
    requires
        is_kept_piece(x),
    ensures
        kept_pieces(seq![x] + ps).len() >= 1,
        kept_pieces(seq![x] + ps)[0] == x,
    decreases ps.len(),
{
    let all = seq![x] + ps;
    if ps.len() == 0 {
        assert(all.drop_last() =~= Seq::<Seq<char>>::empty());
        assert(all.last() == x);
        assert(kept_pieces(Seq::<Seq<char>>::empty()) =~= Seq::<Seq<char>>::empty());
        assert(kept_pieces(all.drop_last()) =~= Seq::<Seq<char>>::empty());
        assert(kept_pieces(all) =~= Seq::<Seq<char>>::empty().push(x));
    } else {
        assert(all.drop_last() =~= seq![x] + ps.drop_last());
        lemma_kept_starts_with(x, ps.drop_last());
        let r = kept_pieces(all.drop_last());
        if is_kept_piece(all.last()) {
            assert(r.push(all.last())[0] == r[0]);
        }
    }
}

/// A search takes the whole query that follows `search/`, slashes and
/// all: for a query whose segments between slashes are all there (none
/// empty and none `.`), `search/` followed by the query is a search for
/// exactly that query.
pub proof fn law_search_takes_whole_query(q: Seq<char>)
    requires
        forall|i: int|
            0 <= i < split_pieces(q).len() ==> #[trigger] is_kept_piece(split_pieces(q)[i]),
    ensures
        oku_path_spec("search/"@ + q) == Ok::<OkuPathView, OkuPathError>(OkuPathView::Search(q)),
{
    reveal_strlit("search/");
    reveal_strlit("search");
    reveal_strlit("home");
    reveal_strlit("tags");
    reveal_strlit("tag");
    reveal_strlit("me");
    reveal_strlit("follow");
    reveal_strlit("block");
    reveal_strlit("delete");
    let w = "search"@;
    let s = "search/"@ + q;
    assert(s =~= w + seq!['/'] + q);
    lemma_split_at_slash(w, q);
    lemma_split_nonempty(q);
    lemma_split_without_slash(w);
    let ps = split_pieces(s);
    let qs = split_pieces(q);
    assert(ps =~= seq![w] + qs);
    assert(is_kept_piece(w));
    lemma_kept_starts_with(w, qs);
    assert(!(s.len() > 0 && s[0] == '/'));
    assert(s[0] == 's');
    assert(path_components(s) =~= kept_pieces(ps));
    assert(is_kept_piece(ps[1]));
    assert(first_kept_from(ps, 1) == 1);
    assert(is_kept_piece(ps[ps.len() - 1]));
    assert(last_kept_end(ps, 1, ps.len() as int) == ps.len());
    assert(ps.subrange(1, ps.len() as int) =~= qs);
    lemma_join_split(q);
    assert(path_rest(s) == q);
}

} // verus!
