use crate::text::{blank, concat, has_prefix, is_blank, starts_with, str_eq, strip_prefix};
use vstd::prelude::*;

verus! {

/// How `url::Url::parse` takes a text: as a URL (with its serialisation
/// and its domain, if it has one), as a relative URL that lacks a scheme,
/// or as something else that is not a URL.
pub enum UrlParse {
    Parsed(String, Option<String>),
    MissingScheme,
    Malformed,
}

/// The plain values of a URL parse outcome.
pub enum UrlParseView {
    Parsed(Seq<char>, Option<Seq<char>>),
    MissingScheme,
    Malformed,
}

impl View for UrlParse {
    type V = UrlParseView;

    open spec fn view(&self) -> UrlParseView {
        match self {
            UrlParse::Parsed(s, d) => UrlParseView::Parsed(
                s@,
                match d {
                    Some(d) => Some(d@),
                    None => None,
                },
            ),
            UrlParse::MissingScheme => UrlParseView::MissingScheme,
            UrlParse::Malformed => UrlParseView::Malformed,
        }
    }
}

/// What `url::Url::parse` makes of a text.
pub uninterp spec fn url_parse_outcome(text: Seq<char>) -> UrlParseView;

/// `url::Url::parse`: a URL gives its serialisation (`Url::as_str`) and
/// its domain (`Url::domain`), the error `RelativeUrlWithoutBase` gives
/// `MissingScheme`, any other error `Malformed`. The outcome is named as a
/// function of the text.
#[verifier::external_body]
pub(crate) fn parse_url(text: &str) -> (r: UrlParse)
    ensures
        r@ == url_parse_outcome(text@),
{
    match url::Url::parse(text) {
        Ok(u) => UrlParse::Parsed(u.as_str().to_string(), u.domain().map(|d| d.to_string())),
        Err(url::ParseError::RelativeUrlWithoutBase) => UrlParse::MissingScheme,
        Err(_) => UrlParse::Malformed,
    }
}

/// What the browser does with the text of the address bar: the text the
/// bar is to show, if it changes, and the URI to load.
pub struct NavigationTarget {
    pub entry_text: Option<String>,
    pub load_uri: String,
}

/// The text with the scheme that its first component suggests: `hive://`
/// for a hive replica, else `ipfs://` for an IPFS path, else none.
pub open spec fn scheme_guess(text: Seq<char>, is_hive: bool, is_ipfs: bool) -> Seq<char> {
    if is_hive {
        "hive://"@ + text
    } else if is_ipfs {
        "ipfs://"@ + text
    } else {
        text
    }
}

/// Puts the suggested scheme in front of an address that lacks one.
pub fn with_scheme_guess(text: &str, is_hive: bool, is_ipfs: bool) -> (r: String)
    ensures
        r@ == scheme_guess(text@, is_hive, is_ipfs),
{
    if is_hive {
        concat("hive://", text)
    } else if is_ipfs {
        concat("ipfs://", text)
    } else {
        String::from_str(text)
    }
}

/// The search page for a text that is no address.
pub open spec fn search_uri(text: Seq<char>) -> Seq<char> {
    "oku:search/"@ + text
}

/// Where the address bar leads, given how its text parsed and, for a text
/// without a scheme, how the text with the guessed scheme parsed: a URL
/// is loaded as typed; a text without a scheme is loaded (and shown) as
/// the URL that the guessed scheme makes of it, if it makes one; anything
/// else is searched for.
pub open spec fn navigation_spec(
    text: Seq<char>,
    parsed: UrlParseView,
    reparsed: UrlParseView,
) -> (Option<Seq<char>>, Seq<char>) {
    match parsed {
        UrlParseView::Parsed(_, _) => (Some(text), text),
        UrlParseView::MissingScheme => match reparsed {
            UrlParseView::Parsed(u, _) => (Some(u), u),
            _ => (None, search_uri(text)),
        },
        UrlParseView::Malformed => (None, search_uri(text)),
    }
}

/// The view of a navigation target.
pub open spec fn target_view(t: NavigationTarget) -> (Option<Seq<char>>, Seq<char>) {
    (
        match t.entry_text {
            Some(s) => Some(s@),
            None => None,
        },
        t.load_uri@,
    )
}

/// Where the address bar leads, as `navigation_spec` says, given the two
/// parse outcomes.
pub fn navigation_target(text: &str, parsed: &UrlParse, reparsed: &UrlParse) -> (r:
    NavigationTarget)
    ensures
        target_view(r) == navigation_spec(text@, parsed@, reparsed@),
{
    match parsed {
        UrlParse::Parsed(_, _) => NavigationTarget {
            entry_text: Some(String::from_str(text)),
            load_uri: String::from_str(text),
        },
        UrlParse::MissingScheme => match reparsed {
            UrlParse::Parsed(u, _) => NavigationTarget {
                entry_text: Some(u.clone()),
                load_uri: u.clone(),
            },
            _ => NavigationTarget { entry_text: None, load_uri: concat("oku:search/", text) },
        },
        UrlParse::Malformed => NavigationTarget {
            entry_text: None,
            load_uri: concat("oku:search/", text),
        },
    }
}

/// Where the address bar's text leads. `is_hive` and `is_ipfs` say
/// whether its first component names a hive replica and whether the text
/// is an IPFS path; they matter only for a text without a scheme.
pub fn connect(text: &str, is_hive: bool, is_ipfs: bool) -> (r: NavigationTarget)
    ensures
        target_view(r) == navigation_spec(
            text@,
            url_parse_outcome(text@),
            url_parse_outcome(scheme_guess(text@, is_hive, is_ipfs)),
        ),
{
    let parsed = parse_url(text);
    match parsed {
        UrlParse::MissingScheme => {
            let guessed = with_scheme_guess(text, is_hive, is_ipfs);
            let reparsed = parse_url(guessed.as_str());
            navigation_target(text, &parsed, &reparsed)
        },
        _ => navigation_target(text, &parsed, &UrlParse::Malformed),
    }
}

/// The text the address bar shows for a page, before it is made fit for
/// display: nothing for the browser's own home page and for `about:` and
/// `view-source:` pages, the query for a search page, else the URI.
pub open spec fn nav_bar_text_spec(uri: Seq<char>) -> Seq<char> {
    if has_prefix(uri, "oku:home"@) || has_prefix(uri, "about:"@) || has_prefix(
        uri,
        "view-source:"@,
    ) {
        Seq::empty()
    } else if has_prefix(uri, "oku:search/"@) {
        uri.skip("oku:search/"@.len() as int)
    } else {
        uri
    }
}

/// The text the address bar shows for the page at `uri`.
pub fn nav_bar_text(uri: &str) -> (r: String)
    ensures
        r@ == nav_bar_text_spec(uri@),
{
    if starts_with(uri, "oku:home") || starts_with(uri, "about:") || starts_with(
        uri,
        "view-source:",
    ) {
        String::new()
    } else {
        match strip_prefix(uri, "oku:search/") {
            Some(query) => query,
            None => String::from_str(uri),
        }
    }
}

/// Whether a page belongs to the browser itself: a blank page or one on
/// the `oku:` scheme.
pub open spec fn is_browser_page(uri: Seq<char>) -> bool {
    uri == "about:blank"@ || has_prefix(uri, "oku:"@)
}

/// The title of a tab: the page's title unless it is missing or blank,
/// else `Oku` for the browser's own pages and `Untitled` for others. A
/// page without a URI counts as `about:blank`.
pub open spec fn title_spec(uri: Option<Seq<char>>, title: Option<Seq<char>>) -> Seq<char> {
    let u = match uri {
        Some(u) => u,
        None => "about:blank"@,
    };
    match title {
        Some(t) if !is_blank(t) => t,
        _ => if is_browser_page(u) {
            "Oku"@
        } else {
            "Untitled"@
        },
    }
}

/// The title of the tab showing the page at `uri` with title `title`.
pub fn get_title(uri: Option<String>, title: Option<String>) -> (r: String)
    ensures
        r@ == title_spec(
            match uri {
                Some(u) => Some(u@),
                None => None,
            },
            match title {
                Some(t) => Some(t@),
                None => None,
            },
        ),
{
    let u = match uri {
        Some(u) => u,
        None => String::from_str("about:blank"),
    };
    if let Some(t) = title {
        if !blank(t.as_str()) {
            return t;
        }
    }
    if str_eq(u.as_str(), "about:blank") || starts_with(u.as_str(), "oku:") {
        String::from_str("Oku")
    } else {
        String::from_str("Untitled")
    }
}

/// A tab's title: a page's own title wins unless it is missing or blank;
/// an untitled page is `Oku` when it is the blank page (or has no address)
/// or lies on the `oku:` scheme, whatever follows `oku:`, and `Untitled`
/// when its address is anything else.
pub proof fn law_tab_titles(rest: Seq<char>, uri: Seq<char>, title: Seq<char>)
    ensures
        title_spec(Some("oku:"@ + rest), None) == "Oku"@,
        title_spec(Some("oku:"@ + rest), Some(Seq::empty())) == "Oku"@,
        title_spec(Some("about:blank"@), None) == "Oku"@,
        title_spec(None, None) == "Oku"@,
        !is_blank(title) ==> title_spec(Some(uri), Some(title)) == title,
        uri != "about:blank"@ && !(uri.len() >= 4 && uri.take(4) == "oku:"@) ==> title_spec(
            Some(uri),
            None,
        ) == "Untitled"@,
{
    reveal_strlit("oku:");
    assert(("oku:"@ + rest).take(4) =~= "oku:"@);
    assert(is_blank(Seq::<char>::empty()));
}

} // verus!
