use super::oku_path::{oku_path_spec, OkuPath, OkuPathError, OkuPathView};
use crate::text::{remove_first, without_first};
use crate::vox_providers::{post_file_path, post_file_spec};
use vstd::prelude::*;

verus! {

/// The `oku:` path of an address: the address without the first `oku:`
/// in it.
pub open spec fn oku_path_text(uri: Seq<char>) -> Seq<char> {
    without_first(uri, "oku:"@)
}

/// The request that an `oku:` address names.
pub open spec fn oku_request(uri: Seq<char>) -> Result<OkuPathView, OkuPathError> {
    oku_path_spec(oku_path_text(uri))
}

/// What fetching from OkuNet asks the node to fetch for the page at an
/// address.
#[derive(Debug, Clone, PartialEq, Eq)]
pub enum OkunetFetch {
    /// Every user the node knows (the home page).
    Users,
    /// A user, by author identifier.
    User(String),
    /// A post: the author identifier and the post's entry file.
    Post(String, String),
    /// Nothing: the page shows no OkuNet content.
    Nothing,
}

/// The plain values of an OkuNet fetch.
pub enum OkunetFetchView {
    Users,
    User(Seq<char>),
    Post(Seq<char>, Seq<char>),
    Nothing,
}

impl View for OkunetFetch {
    type V = OkunetFetchView;

    open spec fn view(&self) -> OkunetFetchView {
        match self {
            OkunetFetch::Users => OkunetFetchView::Users,
            OkunetFetch::User(a) => OkunetFetchView::User(a@),
            OkunetFetch::Post(a, p) => OkunetFetchView::Post(a@, p@),
            OkunetFetch::Nothing => OkunetFetchView::Nothing,
        }
    }
}

/// The fetch for the page at `uri`: every user for the home page, the
/// user for a user's page, the post's entry file (the page path without
/// `.html`, with `.toml`) for a post's page, and nothing otherwise.
pub open spec fn okunet_fetch_spec(uri: Seq<char>) -> OkunetFetchView {
    match oku_request(uri) {
        Ok(OkuPathView::Home) => OkunetFetchView::Users,
        Ok(OkuPathView::User(a, None)) => OkunetFetchView::User(a),
        Ok(OkuPathView::User(a, Some(p))) => OkunetFetchView::Post(a, post_file_spec(p)),
        _ => OkunetFetchView::Nothing,
    }
}

/// What the OkuNet refresh button fetches for the page at `uri`.
pub fn okunet_fetch(uri: &str) -> (r: OkunetFetch)
    ensures
        r@ == okunet_fetch_spec(uri@),
{
    let path = remove_first(uri, "oku:");
    match OkuPath::parse(path.as_str()) {
        Ok(OkuPath::Home) => OkunetFetch::Users,
        Ok(OkuPath::User(a, None)) => OkunetFetch::User(a),
        Ok(OkuPath::User(a, Some(p))) => OkunetFetch::Post(a, post_file_path(p.as_str())),
        _ => OkunetFetch::Nothing,
    }
}

/// Whether the page at `uri` offers to fetch from OkuNet: the home page and
/// users' pages do.
pub fn shows_okunet_refresh(uri: &str) -> (r: bool)
    ensures
        r == (oku_request(uri@) matches Ok(OkuPathView::Home) || oku_request(uri@) matches Ok(
            OkuPathView::User(_, _),
        )),
{
    let path = remove_first(uri, "oku:");
    match OkuPath::parse(path.as_str()) {
        Ok(OkuPath::Home) => true,
        Ok(OkuPath::User(_, _)) => true,
        _ => false,
    }
}

/// A page that the `oku:` scheme shows.
#[derive(Debug, Clone, PartialEq, Eq)]
pub enum OkuPage {
    Home,
    Tags,
    Tag(String),
    /// The user's own profile.
    SelfProfile,
    /// One of the user's own posts, by its path.
    SelfPost(String),
    /// A user's profile, by author identifier.
    User(String),
    /// A user's post: author identifier and post path.
    Post(String, String),
    Search(String),
}

/// The plain values of an `oku:` page.
pub enum OkuPageView {
    Home,
    Tags,
    Tag(Seq<char>),
    SelfProfile,
    SelfPost(Seq<char>),
    User(Seq<char>),
    Post(Seq<char>, Seq<char>),
    Search(Seq<char>),
}

impl View for OkuPage {
    type V = OkuPageView;

    open spec fn view(&self) -> OkuPageView {
        match self {
            OkuPage::Home => OkuPageView::Home,
            OkuPage::Tags => OkuPageView::Tags,
            OkuPage::Tag(t) => OkuPageView::Tag(t@),
            OkuPage::SelfProfile => OkuPageView::SelfProfile,
            OkuPage::SelfPost(p) => OkuPageView::SelfPost(p@),
            OkuPage::User(a) => OkuPageView::User(a@),
            OkuPage::Post(a, p) => OkuPageView::Post(a@, p@),
            OkuPage::Search(q) => OkuPageView::Search(q@),
        }
    }
}

/// A change that a `POST` on the `oku:` scheme asks for.
#[derive(Debug, Clone, PartialEq, Eq)]
pub enum OkuOperation {
    ToggleFollow(String),
    ToggleBlock(String),
    /// Delete the post at a path.
    Delete(String),
}

/// The plain values of an `oku:` operation.
pub enum OkuOperationView {
    ToggleFollow(Seq<char>),
    ToggleBlock(Seq<char>),
    Delete(Seq<char>),
}

impl View for OkuOperation {
    type V = OkuOperationView;

    open spec fn view(&self) -> OkuOperationView {
        match self {
            OkuOperation::ToggleFollow(a) => OkuOperationView::ToggleFollow(a@),
            OkuOperation::ToggleBlock(a) => OkuOperationView::ToggleBlock(a@),
            OkuOperation::Delete(p) => OkuOperationView::Delete(p@),
        }
    }
}

/// Why an `oku:` request is refused: its path names no request, or names
/// one that the request's method does not serve.
#[derive(Debug, Clone, PartialEq, Eq)]
pub enum OkuRouteError {
    Path(OkuPathError),
    Unsupported(OkuPath),
}

/// The plain values of a refusal.
pub enum OkuRouteErrorView {
    Path(OkuPathError),
    Unsupported(OkuPathView),
}

impl View for OkuRouteError {
    type V = OkuRouteErrorView;

    open spec fn view(&self) -> OkuRouteErrorView {
        match self {
            OkuRouteError::Path(e) => OkuRouteErrorView::Path(*e),
            OkuRouteError::Unsupported(p) => OkuRouteErrorView::Unsupported(p@),
        }
    }
}

/// The page that a `GET` on the `oku:` address `uri` shows: the pages the
/// path names, each as it is; a `follow`, `block` or `delete` path is
/// refused.
pub open spec fn oku_get_spec(uri: Seq<char>) -> Result<OkuPageView, OkuRouteErrorView> {
    match oku_request(uri) {
        Err(e) => Err(OkuRouteErrorView::Path(e)),
        Ok(OkuPathView::Home) => Ok(OkuPageView::Home),
        Ok(OkuPathView::Tags) => Ok(OkuPageView::Tags),
        Ok(OkuPathView::Tag(t)) => Ok(OkuPageView::Tag(t)),
        Ok(OkuPathView::Me(None)) => Ok(OkuPageView::SelfProfile),
        Ok(OkuPathView::Me(Some(p))) => Ok(OkuPageView::SelfPost(p)),
        Ok(OkuPathView::User(a, None)) => Ok(OkuPageView::User(a)),
        Ok(OkuPathView::User(a, Some(p))) => Ok(OkuPageView::Post(a, p)),
        Ok(OkuPathView::Search(q)) => Ok(OkuPageView::Search(q)),
        Ok(other) => Err(OkuRouteErrorView::Unsupported(other)),
    }
}

/// The change that a `POST` on the `oku:` address `uri` asks for: only
/// `follow`, `block` and `delete` paths name one.
pub open spec fn oku_post_spec(uri: Seq<char>) -> Result<OkuOperationView, OkuRouteErrorView> {
    match oku_request(uri) {
        Err(e) => Err(OkuRouteErrorView::Path(e)),
        Ok(OkuPathView::ToggleFollow(a)) => Ok(OkuOperationView::ToggleFollow(a)),
        Ok(OkuPathView::ToggleBlock(a)) => Ok(OkuOperationView::ToggleBlock(a)),
        Ok(OkuPathView::Delete(p)) => Ok(OkuOperationView::Delete(p)),
        Ok(other) => Err(OkuRouteErrorView::Unsupported(other)),
    }
}

/// The view of a routing outcome for `GET`.
pub open spec fn get_result_view(r: Result<OkuPage, OkuRouteError>) -> Result<
    OkuPageView,
    OkuRouteErrorView,
> {
    match r {
        Ok(p) => Ok(p@),
        Err(e) => Err(e@),
    }
}

/// The view of a routing outcome for `POST`.
pub open spec fn post_result_view(r: Result<OkuOperation, OkuRouteError>) -> Result<
    OkuOperationView,
    OkuRouteErrorView,
> {
    match r {
        Ok(o) => Ok(o@),
        Err(e) => Err(e@),
    }
}

/// The page a `GET` on the (display-decoded) `oku:` address `uri` shows.
pub fn oku_get_route(uri: &str) -> (r: Result<OkuPage, OkuRouteError>)
    ensures
        get_result_view(r) == oku_get_spec(uri@),
{
    let path = remove_first(uri, "oku:");
    match OkuPath::parse(path.as_str()) {
        Err(e) => Err(OkuRouteError::Path(e)),
        Ok(OkuPath::Home) => Ok(OkuPage::Home),
        Ok(OkuPath::Tags) => Ok(OkuPage::Tags),
        Ok(OkuPath::Tag(t)) => Ok(OkuPage::Tag(t)),
        Ok(OkuPath::Me(None)) => Ok(OkuPage::SelfProfile),
        Ok(OkuPath::Me(Some(p))) => Ok(OkuPage::SelfPost(p)),
        Ok(OkuPath::User(a, None)) => Ok(OkuPage::User(a)),
        Ok(OkuPath::User(a, Some(p))) => Ok(OkuPage::Post(a, p)),
        Ok(OkuPath::Search(q)) => Ok(OkuPage::Search(q)),
        Ok(other) => Err(OkuRouteError::Unsupported(other)),
    }
}

/// The change a `POST` on the (display-decoded) `oku:` address `uri` asks
/// for.
pub fn oku_post_route(uri: &str) -> (r: Result<OkuOperation, OkuRouteError>)
    ensures
        post_result_view(r) == oku_post_spec(uri@),
{
    let path = remove_first(uri, "oku:");
    match OkuPath::parse(path.as_str()) {
        Err(e) => Err(OkuRouteError::Path(e)),
        Ok(OkuPath::ToggleFollow(a)) => Ok(OkuOperation::ToggleFollow(a)),
        Ok(OkuPath::ToggleBlock(a)) => Ok(OkuOperation::ToggleBlock(a)),
        Ok(OkuPath::Delete(p)) => Ok(OkuOperation::Delete(p)),
        Ok(other) => Err(OkuRouteError::Unsupported(other)),
    }
}

/// The OkuNet refresh button is offered exactly on the pages for which it
/// has something to fetch.
pub proof fn law_refresh_offered_iff_fetch(uri: Seq<char>)
    ensures
        (oku_request(uri) matches Ok(OkuPathView::Home) || oku_request(uri) matches Ok(
            OkuPathView::User(_, _),
        )) <==> !(okunet_fetch_spec(uri) is Nothing),
{
}

/// No `oku:` request is served both as a page and as a change: a path that
/// `GET` shows is refused by `POST`, and the other way round.
pub proof fn law_get_and_post_requests_differ(uri: Seq<char>)
    ensures
        !(oku_get_spec(uri) is Ok && oku_post_spec(uri) is Ok),
{
}

} // verus!
