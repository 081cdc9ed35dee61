use crate::text::{blank, is_blank, str_eq};
use daggy::petgraph::graph::NodeIndex;
use daggy::stable_dag::StableDag;
use vstd::prelude::*;

verus! {

/// A page of a browsing session: where it was first requested, where it
/// ended up, its title, and when it was first seen (see `later_than`).
#[derive(Debug, Clone)]
pub struct HistoryItem {
    pub(crate) uri: String,
    pub(crate) original_uri: String,
    pub(crate) title: String,
    pub(crate) timestamp: Timestamp,
}

/// The plain values of a history item.
pub struct HistoryItemView {
    pub uri: Seq<char>,
    pub original_uri: Seq<char>,
    pub title: Seq<char>,
    pub timestamp: Timestamp,
}

impl View for HistoryItem {
    type V = HistoryItemView;

    closed spec fn view(&self) -> HistoryItemView {
        HistoryItemView {
            uri: self.uri@,
            original_uri: self.original_uri@,
            title: self.title@,
            timestamp: self.timestamp,
        }
    }
}

/// A point in time: its Unix timestamp in whole seconds and the
/// nanoseconds past that second, which run from 1,000,000,000 up during a
/// leap second.
#[derive(Debug, Clone, Copy, PartialEq, Eq, Structural)]
pub struct Timestamp {
    pub secs: i64,
    pub nanos: u32,
}

/// Whether the time `a` comes after the time `b`: times are ordered by
/// their seconds, then by their nanoseconds.
pub open spec fn later_than(a: Timestamp, b: Timestamp) -> bool {
    a.secs > b.secs || (a.secs == b.secs && a.nanos > b.nanos)
}

impl Timestamp {
    /// Whether this time comes after `other` (see `later_than`).
    pub fn is_later(&self, other: &Timestamp) -> (r: bool)
        ensures
            r == later_than(*self, *other),
    {
        self.secs > other.secs || (self.secs == other.secs && self.nanos > other.nanos)
    }
}

/// `chrono::Utc::now()`, read as its Unix timestamp in whole seconds
/// (`timestamp`) and the nanoseconds past that second
/// (`timestamp_subsec_nanos`). Nothing is promised of the value: it is the
/// time of the call.
#[verifier::external_body]
fn now_stamp() -> Timestamp {
    let t = chrono::Utc::now();
    Timestamp { secs: t.timestamp(), nanos: t.timestamp_subsec_nanos() }
}

impl HistoryItem {
    /// A new item, stamped with the current time.
    pub fn new(uri: String, original_uri: String, title: String) -> (r: Self)
        ensures
            r@.uri == uri@,
            r@.original_uri == original_uri@,
            r@.title == title@,
    {
        HistoryItem { uri, original_uri, title, timestamp: now_stamp() }
    }

    /// An item with all its values given, as when it is read back from a
    /// saved session.
    pub fn from_parts(uri: String, original_uri: String, title: String, timestamp: Timestamp) -> (r:
        Self)
        ensures
            r@ == (HistoryItemView {
                uri: uri@,
                original_uri: original_uri@,
                title: title@,
                timestamp,
            }),
    {
        HistoryItem { uri, original_uri, title, timestamp }
    }

    pub fn uri(&self) -> (r: String)
        ensures
            r@ == self@.uri,
    {
        self.uri.clone()
    }

    pub fn original_uri(&self) -> (r: String)
        ensures
            r@ == self@.original_uri,
    {
        self.original_uri.clone()
    }

    pub fn title(&self) -> (r: String)
        ensures
            r@ == self@.title,
    {
        self.title.clone()
    }

    pub fn timestamp(&self) -> (r: Timestamp)
        ensures
            r == self@.timestamp,
    {
        self.timestamp
    }

    /// Stores the URI the page ended up at and hands back the previous one.
    pub fn set_uri(&mut self, uri: String) -> (r: String)
        ensures
            r@ == old(self)@.uri,
            final(self)@ == (HistoryItemView { uri: uri@, ..old(self)@ }),
    {
        let mut previous = uri;
        std::mem::swap(&mut self.uri, &mut previous);
        previous
    }

    /// Stores the URI first requested and hands back the previous one.
    pub fn set_original_uri(&mut self, original_uri: String) -> (r: String)
        ensures
            r@ == old(self)@.original_uri,
            final(self)@ == (HistoryItemView { original_uri: original_uri@, ..old(self)@ }),
    {
        let mut previous = original_uri;
        std::mem::swap(&mut self.original_uri, &mut previous);
        previous
    }

    /// Stores the page title and hands back the previous one.
    pub fn set_title(&mut self, title: String) -> (r: String)
        ensures
            r@ == old(self)@.title,
            final(self)@ == (HistoryItemView { title: title@, ..old(self)@ }),
    {
        let mut previous = title;
        std::mem::swap(&mut self.title, &mut previous);
        previous
    }
}

/// The graph of a session: a daggy `StableDag` of history items, with
/// navigations as edges.
#[verifier::external_body]
pub struct SessionDag {
    graph: StableDag<HistoryItem, (), u32>,
}

/// The nodes of the graph: each node index with the item it holds.
pub uninterp spec fn dag_nodes(g: SessionDag) -> Map<int, HistoryItemView>;

/// The edges of the graph, as pairs of node indices.
pub uninterp spec fn dag_edges(g: SessionDag) -> Set<(int, int)>;

/// Whether every node and edge slot of the graph is occupied and no two
/// edges join the same pair of nodes: so it is for a graph that nodes and
/// edges were only ever added to, edges through `update_edge`.
pub uninterp spec fn dag_is_compact(g: SessionDag) -> bool;

/// The text that labels a page in the drawing of a session's graph: its
/// address, or its title with the address in brackets when it has a title.
pub open spec fn node_label_spec(title: Seq<char>, uri: Seq<char>) -> Seq<char> {
    "label = \""@ + (if is_blank(title) {
        uri
    } else {
        title + " ("@ + uri + ")"@
    }) + "\""@
}

/// The label attribute of a page in the drawing of a session's graph.
pub fn node_label(title: &str, uri: &str) -> (r: String)
    ensures
        r@ == node_label_spec(title@, uri@),
{
    let mut r = String::from_str("label = \"");
    if blank(title) {
        r.append(uri);
    } else {
        r.append(title);
        r.append(" (");
        r.append(uri);
        r.append(")");
    }
    r.append("\"");
    r
}

/// Whether the edges lead, in zero or more steps, from `from` to `to`.
pub open spec fn reaches(edges: Set<(int, int)>, from: int, to: int) -> bool {
    exists|p: Seq<int>|
        #![trigger p.len(), p[0]]
        p.len() >= 1 && p[0] == from && p.last() == to && forall|i: int|
            0 <= i < p.len() - 1 ==> #[trigger] edges.contains((p[i], p[i + 1]))
}

/// `StableDag::new`: an empty graph.
#[verifier::external_body]
fn dag_new() -> (r: SessionDag)
    ensures
        dag_nodes(r).dom().is_empty(),
        dag_edges(r).is_empty(),
        dag_is_compact(r),
{
    SessionDag { graph: StableDag::new() }
}

/// `StableDag::add_node`: in a compact graph the new node takes the index
/// just past the existing ones.
#[verifier::external_body]
fn dag_add_node(g: &mut SessionDag, w: HistoryItem) -> (r: usize)
    requires
        dag_is_compact(*old(g)),
        dag_nodes(*old(g)).len() + 1 < u32::MAX,
    ensures
        r == dag_nodes(*old(g)).len(),
        dag_nodes(*final(g)) == dag_nodes(*old(g)).insert(r as int, w@),
        dag_edges(*final(g)) == dag_edges(*old(g)),
        dag_is_compact(*final(g)),
{
    g.graph.add_node(w).index()
}

/// `StableDag::node_count`: the number of nodes.
#[verifier::external_body]
fn dag_node_count(g: &SessionDag) -> (r: usize)
    ensures
        r == dag_nodes(*g).len(),
{
    g.graph.node_count()
}

/// `StableDag::edge_count`: the number of edges, which in a compact graph
/// is the number of node pairs joined.
#[verifier::external_body]
fn dag_edge_count(g: &SessionDag) -> (r: usize)
    ensures
        dag_is_compact(*g) ==> r == dag_edges(*g).len(),
{
    g.graph.edge_count()
}

/// `StableDag::node_weight`: the item at an index, if a node has it.
#[verifier::external_body]
fn dag_node_weight(g: &SessionDag, i: usize) -> (r: Option<&HistoryItem>)
    requires
        i < u32::MAX,
    ensures
        r is Some <==> dag_nodes(*g).dom().contains(i as int),
        r matches Some(w) ==> w@ == dag_nodes(*g)[i as int],
{
    g.graph.node_weight(NodeIndex::new(i))
}

/// `StableDag::node_weight_mut`, used to put a new item in place of the
/// one at an index; nothing happens where no node has the index.
#[verifier::external_body]
fn dag_replace_node_weight(g: &mut SessionDag, i: usize, w: HistoryItem) -> (r: bool)
    requires
        i < u32::MAX,
    ensures
        r == dag_nodes(*old(g)).dom().contains(i as int),
        r ==> dag_nodes(*final(g)) == dag_nodes(*old(g)).insert(i as int, w@),
        !r ==> dag_nodes(*final(g)) == dag_nodes(*old(g)),
        dag_edges(*final(g)) == dag_edges(*old(g)),
        dag_is_compact(*final(g)) == dag_is_compact(*old(g)),
{
    match g.graph.node_weight_mut(NodeIndex::new(i)) {
        Some(slot) => {
            *slot = w;
            true
        },
        None => false,
    }
}

/// `StableDag::update_edge`: an edge that exists stays as it is; an edge
/// that would close a cycle (its target already leads to its source) is
/// refused; any other edge is added. Returns whether the edge is there.
#[verifier::external_body]
fn dag_update_edge(g: &mut SessionDag, a: usize, b: usize) -> (r: bool)
    requires
        dag_is_compact(*old(g)),
        dag_nodes(*old(g)).dom().contains(a as int),
        dag_nodes(*old(g)).dom().contains(b as int),
        a < u32::MAX,
        b < u32::MAX,
        dag_edges(*old(g)).len() + 1 < u32::MAX,
    ensures
        dag_nodes(*final(g)) == dag_nodes(*old(g)),
        dag_is_compact(*final(g)),
        dag_edges(*old(g)).contains((a as int, b as int)) ==> r && dag_edges(*final(g))
            == dag_edges(*old(g)),
        !dag_edges(*old(g)).contains((a as int, b as int)) && reaches(
            dag_edges(*old(g)),
            b as int,
            a as int,
        ) ==> !r && dag_edges(*final(g)) == dag_edges(*old(g)),
        !dag_edges(*old(g)).contains((a as int, b as int)) && !reaches(
            dag_edges(*old(g)),
            b as int,
            a as int,
        ) ==> r && dag_edges(*final(g)) == dag_edges(*old(g)).insert((a as int, b as int)),
{
    g.graph.update_edge(NodeIndex::new(a), NodeIndex::new(b), ()).is_ok()
}

/// `uuid::Uuid::new_v4().as_u128()`: a fresh random identifier. Nothing
/// is promised of the value.
#[verifier::external_body]
fn new_session_id() -> u128 {
    uuid::Uuid::new_v4().as_u128()
}

/// Whether node `i` is the lowest-indexed node whose item was first
/// requested at `original_uri`.
pub open spec fn is_first_match(
    nodes: Map<int, HistoryItemView>,
    i: int,
    original_uri: Seq<char>,
) -> bool {
    &&& 0 <= i
    &&& nodes.dom().contains(i)
    &&& nodes[i].original_uri == original_uri
    &&& forall|j: int|
        0 <= j < i && nodes.dom().contains(j) ==> #[trigger] nodes[j].original_uri
            != original_uri
}

/// Whether no node's item was first requested at `original_uri`.
pub open spec fn has_no_match(nodes: Map<int, HistoryItemView>, original_uri: Seq<char>) -> bool {
    forall|j: int| nodes.dom().contains(j) ==> #[trigger] nodes[j].original_uri != original_uri
}

/// Whether each page of `after` that `before` lacks has its first
/// requested URI as its address and an empty title, as a page that a
/// navigation adds has.
pub open spec fn added_pages_fresh(
    before: Map<int, HistoryItemView>,
    after: Map<int, HistoryItemView>,
) -> bool {
    forall|j: int|
        #[trigger] after.dom().contains(j) && !before.dom().contains(j) ==> after[j].uri
            == after[j].original_uri && after[j].title == Seq::<char>::empty()
}

/// Whether `after` is what `find_or_add_uri` makes of the session `before`
/// for `uri`, giving `r`: page `r` is the page first requested at `uri`;
/// a session that had such a page is unchanged, and one that had none
/// gains it as its next page, with `uri` as both its URIs and an empty
/// title.
pub open spec fn find_or_add_outcome(
    before: HistorySessionView,
    after: HistorySessionView,
    uri: Seq<char>,
    r: int,
) -> bool {
    &&& after.id == before.id
    &&& after.edges == before.edges
    &&& is_first_match(after.nodes, r, uri)
    &&& !has_no_match(before.nodes, uri) ==> after.nodes == before.nodes
    &&& has_no_match(before.nodes, uri) ==> r == before.nodes.len() && exists|
        item: HistoryItemView,
    |
        #![trigger before.nodes.insert(r, item)]
        item.uri == uri && item.original_uri == uri && item.title == Seq::<char>::empty()
            && after.nodes == before.nodes.insert(r, item)
}

/// The browsing history of one session: the pages visited, and which page
/// led to which.
pub struct HistorySession {
    pub(crate) graph: SessionDag,
    pub(crate) id: u128,
}

/// The plain values of a session: its identifier, its pages by node index,
/// and the navigations between them.
pub struct HistorySessionView {
    pub id: u128,
    pub nodes: Map<int, HistoryItemView>,
    pub edges: Set<(int, int)>,
}

impl View for HistorySession {
    type V = HistorySessionView;

    closed spec fn view(&self) -> HistorySessionView {
        HistorySessionView { id: self.id, nodes: dag_nodes(self.graph), edges: dag_edges(self.graph) }
    }
}

impl HistorySession {
    /// The session's graph is compact and its nodes are numbered from 0.
    pub closed spec fn wf(&self) -> bool {
        &&& dag_is_compact(self.graph)
        &&& forall|i: int|
            #![trigger dag_nodes(self.graph).dom().contains(i)]
            dag_nodes(self.graph).dom().contains(i) <==> 0 <= i < dag_nodes(self.graph).len()
        &&& dag_nodes(self.graph).dom().finite()
        &&& dag_nodes(self.graph).len() < u32::MAX
        &&& acyclic(dag_edges(self.graph))
    }

    /// There is room for two more pages and one more navigation.
    pub closed spec fn has_room(&self) -> bool {
        &&& dag_nodes(self.graph).len() + 3 < u32::MAX
        &&& dag_edges(self.graph).len() + 2 < u32::MAX
    }

    /// Whether there is room for two more pages and one more navigation.
    pub fn room_left(&self) -> (r: bool)
        requires
            self.wf(),
        ensures
            r == self.has_room(),
    {
        let nodes = dag_node_count(&self.graph);
        let edges = dag_edge_count(&self.graph);
        nodes < 0xffff_fffc && edges < 0xffff_fffd
    }

    /// A new, empty session with a fresh random identifier.
    pub fn new() -> (r: Self)
        ensures
            r.wf(),
            r.has_room(),
            r@.nodes.dom().is_empty(),
            r@.edges.is_empty(),
    {
        let r = HistorySession { graph: dag_new(), id: new_session_id() };
        assert(dag_nodes(r.graph).dom() =~= Set::empty());
        r
    }

    /// The session's identifier.
    pub fn id(&self) -> (r: u128)
        ensures
            r == self@.id,
    {
        self.id
    }

    /// The number of pages of the session.
    pub fn node_count(&self) -> (r: usize)
        ensures
            r == self@.nodes.len(),
    {
        dag_node_count(&self.graph)
    }

    /// Whether a session read back from disk is kept: one without pages is
    /// dropped unless it is the current session.
    pub fn worth_keeping(&self, current_id: u128) -> (r: bool)
        ensures
            r == !(self@.nodes.len() == 0 && self@.id != current_id),
    {
        !(dag_node_count(&self.graph) == 0 && self.id != current_id)
    }

    /// A copy of the page at `index`, if the session has one there.
    pub fn item(&self, index: usize) -> (r: Option<HistoryItem>)
        requires
            self.wf(),
        ensures
            r is Some <==> self@.nodes.dom().contains(index as int),
            r matches Some(item) ==> item@ == self@.nodes[index as int],
    {
        if index >= dag_node_count(&self.graph) {
            return None;
        }
        match dag_node_weight(&self.graph, index) {
            Some(item) => Some(
                HistoryItem {
                    uri: item.uri.clone(),
                    original_uri: item.original_uri.clone(),
                    title: item.title.clone(),
                    timestamp: item.timestamp,
                },
            ),
            None => None,
        }
    }

    /// The lowest-indexed page first requested at `original_uri`.
    pub fn find_uri(&self, original_uri: &str) -> (r: Option<usize>)
        requires
            self.wf(),
        ensures
            r matches Some(i) ==> is_first_match(self@.nodes, i as int, original_uri@),
            r is None ==> has_no_match(self@.nodes, original_uri@),
    {
        let n = dag_node_count(&self.graph);
        let ghost nodes = dag_nodes(self.graph);
        let mut i: usize = 0;
        while i < n
            invariant
                self.wf(),
                nodes == dag_nodes(self.graph),
                n == nodes.len(),
                i <= n,
                forall|j: int| 0 <= j < i ==> #[trigger] nodes[j].original_uri != original_uri@,
            decreases n - i,
        {
            assert(nodes.dom().contains(i as int));
            match dag_node_weight(&self.graph, i) {
                Some(item) => {
                    if str_eq(item.original_uri.as_str(), original_uri) {
                        return Some(i);
                    }
                },
                None => {},
            }
            i = i + 1;
        }
        None
    }

    /// The page first requested at `uri`, added (with that URI as both its
    /// URIs and an empty title) if the session has none.
    pub fn find_or_add_uri(&mut self, uri: String) -> (r: usize)
        requires
            old(self).wf(),
            old(self)@.nodes.len() + 1 < u32::MAX,
        ensures
            final(self).wf(),
            final(self)@.id == old(self)@.id,
            final(self)@.edges == old(self)@.edges,
            is_first_match(final(self)@.nodes, r as int, uri@),
            final(self)@.nodes.len() == old(self)@.nodes.len() + (if has_no_match(
                old(self)@.nodes,
                uri@,
            ) {
                1int
            } else {
                0int
            }),
            !has_no_match(old(self)@.nodes, uri@) ==> final(self)@.nodes == old(self)@.nodes,
            has_no_match(old(self)@.nodes, uri@) ==> r == old(self)@.nodes.len() && exists|
                item: HistoryItemView,
            |
                #![trigger old(self)@.nodes.insert(r as int, item)]
                item.uri == uri@ && item.original_uri == uri@ && item.title == Seq::<char>::empty()
                    && final(self)@.nodes == old(self)@.nodes.insert(r as int, item),
            find_or_add_outcome(old(self)@, final(self)@, uri@, r as int),
            added_pages_fresh(old(self)@.nodes, final(self)@.nodes),
    {
        match self.find_uri(uri.as_str()) {
            Some(i) => i,
            None => {
                let item = HistoryItem::new(uri.clone(), uri, String::new());
                let ghost old_nodes = dag_nodes(self.graph);
                let ghost item_view = item@;
                let i = dag_add_node(&mut self.graph, item);
                proof {
                    let nodes = dag_nodes(self.graph);
                    assert(nodes == old_nodes.insert(i as int, item_view));
                    assert(nodes.dom() =~= old_nodes.dom().insert(i as int));
                    assert(nodes.len() == old_nodes.len() + 1);
                    assert forall|j: int| 0 <= j < i implies #[trigger] nodes[j].original_uri
                        != uri@ by {
                        assert(old_nodes.dom().contains(j));
                    }
                }
                i
            },
        }
    }

    /// Records a navigation from the page first requested at `old_uri` to
    /// the page first requested at `new_uri`, adding either page that the
    /// session lacks. A navigation to the same URI records nothing. The
    /// edge between the two pages is added unless it exists already or the
    /// new page already leads back to the old one.
    pub fn add_navigation(&mut self, old_uri: String, new_uri: String) -> (r: Option<(usize, usize)>)
        requires
            old(self).wf(),
            old_uri@ != new_uri@ ==> old(self).has_room(),
        ensures
            final(self).wf(),
            final(self)@.id == old(self)@.id,
            old_uri@ == new_uri@ ==> r is None && final(self)@ == old(self)@,
            old_uri@ != new_uri@ ==> r is Some,
            old(self)@.nodes.len() <= final(self)@.nodes.len() <= old(self)@.nodes.len() + 2,
            added_pages_fresh(old(self)@.nodes, final(self)@.nodes),
            r matches Some((a, b)) ==> {
                &&& is_first_match(final(self)@.nodes, a as int, old_uri@)
                &&& is_first_match(final(self)@.nodes, b as int, new_uri@)
                &&& final(self)@.nodes.dom() == old(self)@.nodes.dom().insert(a as int).insert(
                    b as int,
                )
                &&& forall|j: int| #[trigger]
                    old(self)@.nodes.dom().contains(j) ==> final(self)@.nodes[j] == old(
                        self,
                    )@.nodes[j]
                &&& final(self)@.edges == navigation_edges(
                    old(self)@.edges,
                    a as int,
                    b as int,
                )
            },
    {
        if str_eq(old_uri.as_str(), new_uri.as_str()) {
            return None;
        }
        let ghost nodes0 = dag_nodes(self.graph);
        let ghost edges0 = dag_edges(self.graph);
        let a = self.find_or_add_uri(old_uri);
        let ghost nodes1 = dag_nodes(self.graph);
        let b = self.find_or_add_uri(new_uri);
        let ghost nodes2 = dag_nodes(self.graph);
        proof {
            assert(nodes2.dom().contains(a as int)) by {
                if !has_no_match(nodes1, new_uri@) {
                } else {
                    assert(nodes2.dom() =~= nodes1.dom().insert(b as int));
                }
            }
            assert(nodes2[a as int] == nodes1[a as int]);
            assert(is_first_match(nodes2, a as int, old_uri@)) by {
                assert forall|j: int|
                    0 <= j < a && nodes2.dom().contains(j) implies #[trigger] nodes2[j].original_uri
                    != old_uri@ by {
                    if nodes1.dom().contains(j) {
                        assert(nodes2[j] == nodes1[j]);
                    }
                }
            }
            assert(nodes2.dom() =~= nodes0.dom().insert(a as int).insert(b as int)) by {
                if !has_no_match(nodes0, old_uri@) {
                } else {
                    assert(nodes1.dom() =~= nodes0.dom().insert(a as int));
                }
                if !has_no_match(nodes1, new_uri@) {
                    assert(nodes1.dom().contains(b as int));
                } else {
                    assert(nodes2.dom() =~= nodes1.dom().insert(b as int));
                }
            }
            assert(added_pages_fresh(nodes0, nodes2)) by {
                assert forall|j: int|
                    #[trigger] nodes2.dom().contains(j) && !nodes0.dom().contains(j) implies nodes2[j].uri
                    == nodes2[j].original_uri && nodes2[j].title == Seq::<char>::empty() by {
                    if nodes1.dom().contains(j) {
                        if has_no_match(nodes1, new_uri@) {
                            assert(nodes2.dom() =~= nodes1.dom().insert(b as int));
                        }
                        assert(nodes2[j] == nodes1[j]);
                    }
                }
            }
            assert forall|j: int| #[trigger] nodes0.dom().contains(j) implies nodes2[j]
                == nodes0[j] by {
                if !has_no_match(nodes0, old_uri@) {
                } else {
                    assert(nodes1.dom().contains(j));
                }
                assert(nodes1.dom().contains(j));
            }
        }
        let _ = dag_update_edge(&mut self.graph, a, b);
        proof {
            law_navigation_keeps_acyclic(edges0, a as int, b as int);
        }
        Some((a, b))
    }

    /// Records a navigation as `add_navigation` does when the session has
    /// room for it; a session without room is left as it is (`None`).
    pub fn try_add_navigation(&mut self, old_uri: String, new_uri: String) -> (r: Option<
        (usize, usize),
    >)
        requires
            old(self).wf(),
        ensures
            final(self).wf(),
            final(self)@.id == old(self)@.id,
            !old(self).has_room() ==> r is None && final(self)@ == old(self)@,
            old(self).has_room() && old_uri@ == new_uri@ ==> r is None && final(self)@ == old(
                self,
            )@,
            old(self).has_room() && old_uri@ != new_uri@ ==> r is Some,
            old(self)@.nodes.len() <= final(self)@.nodes.len() <= old(self)@.nodes.len() + 2,
            added_pages_fresh(old(self)@.nodes, final(self)@.nodes),
            r matches Some((a, b)) ==> {
                &&& is_first_match(final(self)@.nodes, a as int, old_uri@)
                &&& is_first_match(final(self)@.nodes, b as int, new_uri@)
                &&& final(self)@.nodes.dom() == old(self)@.nodes.dom().insert(a as int).insert(
                    b as int,
                )
                &&& forall|j: int| #[trigger]
                    old(self)@.nodes.dom().contains(j) ==> final(self)@.nodes[j] == old(
                        self,
                    )@.nodes[j]
                &&& final(self)@.edges == navigation_edges(
                    old(self)@.edges,
                    a as int,
                    b as int,
                )
            },
    {
        if self.room_left() {
            self.add_navigation(old_uri, new_uri)
        } else {
            None
        }
    }

    /// Updates the page first requested at `original_uri`, if the session
    /// has one: where it ended up, and its title, as far as they are given.
    pub fn update_uri(
        &mut self,
        original_uri: &str,
        updated_uri: Option<String>,
        updated_title: Option<String>,
    )
        requires
            old(self).wf(),
        ensures
            final(self).wf(),
            final(self)@.id == old(self)@.id,
            final(self)@.edges == old(self)@.edges,
            final(self)@.nodes.dom() == old(self)@.nodes.dom(),
            final(self)@.nodes.len() == old(self)@.nodes.len(),
            has_no_match(old(self)@.nodes, original_uri@) ==> final(self)@.nodes == old(
                self,
            )@.nodes,
            forall|i: int|
                is_first_match(old(self)@.nodes, i, original_uri@) ==> final(self)@.nodes
                    == old(self)@.nodes.insert(
                    i,
                    updated_item(old(self)@.nodes[i], updated_uri, updated_title),
                ),
    {
        match self.find_uri(original_uri) {
            Some(i) => {
                match dag_node_weight(&self.graph, i) {
                    Some(item) => {
                        let mut updated = HistoryItem {
                            uri: item.uri.clone(),
                            original_uri: item.original_uri.clone(),
                            title: item.title.clone(),
                            timestamp: item.timestamp,
                        };
                        if let Some(uri) = updated_uri {
                            updated.uri = uri;
                        }
                        if let Some(title) = updated_title {
                            updated.title = title;
                        }
                        let ghost old_nodes = dag_nodes(self.graph);
                        let _ = dag_replace_node_weight(&mut self.graph, i, updated);
                        proof {
                            assert(dag_nodes(self.graph).dom() =~= old_nodes.dom());
                            assert forall|k: int|
                                is_first_match(old_nodes, k, original_uri@) implies k == i by {
                                if k < i {
                                    assert(old_nodes[k].original_uri != original_uri@);
                                }
                                if i < k {
                                    assert(old_nodes[i as int].original_uri != original_uri@);
                                }
                            }
                        }
                    },
                    None => {},
                }
            },
            None => {
                assert forall|k: int| !is_first_match(dag_nodes(self.graph), k, original_uri@) by {
                }
            },
        }
    }
}

/// The edges after a navigation from node `a` to node `b` is recorded: an
/// existing edge stays, an edge that would close a cycle is left out, any
/// other is added.
pub open spec fn navigation_edges(edges: Set<(int, int)>, a: int, b: int) -> Set<(int, int)> {
    if edges.contains((a, b)) || reaches(edges, b, a) {
        edges
    } else {
        edges.insert((a, b))
    }
}

/// An item with the URI it ended up at and its title replaced, as far as
/// new ones are given.
pub open spec fn updated_item(
    item: HistoryItemView,
    uri: Option<String>,
    title: Option<String>,
) -> HistoryItemView {
    HistoryItemView {
        uri: match uri {
            Some(u) => u@,
            None => item.uri,
        },
        title: match title {
            Some(t) => t@,
            None => item.title,
        },
        ..item
    }
}

} // verus!
verus! {

/// Whether no edge lies on a cycle: the target of an edge never leads back
/// to its source.
pub open spec fn acyclic(edges: Set<(int, int)>) -> bool {
    forall|x: int, y: int| #[trigger] edges.contains((x, y)) ==> !reaches(edges, y, x)
}

proof fn lemma_reaches_refl(edges: Set<(int, int)>, x: int)
    ensures
        reaches(edges, x, x),
{
    let p = seq![x];
    assert(p.len() >= 1 && p[0] == x && p.last() == x);
}

proof fn lemma_reaches_prepend(edges: Set<(int, int)>, x: int, y: int, z: int)
    requires
        edges.contains((x, y)),
        reaches(edges, y, z),
    ensures
        reaches(edges, x, z),
{
    let p = choose|p: Seq<int>|
        #![trigger p.len(), p[0]]
        p.len() >= 1 && p[0] == y && p.last() == z && forall|i: int|
            0 <= i < p.len() - 1 ==> #[trigger] edges.contains((p[i], p[i + 1]));
    let q = seq![x] + p;
    assert(q[0] == x);
    assert(q.last() == z);
    assert forall|i: int| 0 <= i < q.len() - 1 implies #[trigger] edges.contains((q[i], q[i + 1])) by {
        if i == 0 {
            assert(q[1] == p[0]);
        } else {
            let k = i - 1;
            assert(edges.contains((p[k], p[k + 1])));
            assert(q[i] == p[k] && q[i + 1] == p[k + 1]);
        }
    }
}

proof fn lemma_reaches_concat(edges: Set<(int, int)>, x: int, y: int, z: int)
    requires
        reaches(edges, x, y),
        reaches(edges, y, z),
    ensures
        reaches(edges, x, z),
{
    let p = choose|p: Seq<int>|
        #![trigger p.len(), p[0]]
        p.len() >= 1 && p[0] == x && p.last() == y && forall|i: int|
            0 <= i < p.len() - 1 ==> #[trigger] edges.contains((p[i], p[i + 1]));
    lemma_reaches_concat_path(edges, p, z);
}

proof fn lemma_reaches_concat_path(edges: Set<(int, int)>, p: Seq<int>, z: int)
    requires
        p.len() >= 1,
        forall|i: int| 0 <= i < p.len() - 1 ==> #[trigger] edges.contains((p[i], p[i + 1])),
        reaches(edges, p.last(), z),
    ensures
        reaches(edges, p[0], z),
    decreases p.len(),
{
    if p.len() > 1 {
        let q = p.drop_last();
        let k = p.len() - 2;
        assert(edges.contains((p[k], p[k + 1])));
        lemma_reaches_prepend(edges, p[p.len() - 2], p.last(), z);
        assert forall|i: int| 0 <= i < q.len() - 1 implies #[trigger] edges.contains(
            (q[i], q[i + 1]),
        ) by {
            assert(q[i] == p[i] && q[i + 1] == p[i + 1]);
        }
        lemma_reaches_concat_path(edges, q, z);
    }
}

/// A path in the edges with one more edge `(a, b)` is a path in the old
/// edges, or it reaches `a` in the old edges and continues from `b`.
proof fn lemma_reaches_with_edge(edges: Set<(int, int)>, a: int, b: int, p: Seq<int>)
    requires
        p.len() >= 1,
        forall|i: int|
            0 <= i < p.len() - 1 ==> #[trigger] edges.insert((a, b)).contains((p[i], p[i + 1])),
    ensures
        reaches(edges, p[0], p.last()) || (reaches(edges, p[0], a) && reaches(
            edges,
            b,
            p.last(),
        )),
    decreases p.len(),
{
    if p.len() == 1 {
        lemma_reaches_refl(edges, p[0]);
    } else {
        let q = p.skip(1);
        assert forall|i: int|
            0 <= i < q.len() - 1 implies #[trigger] edges.insert((a, b)).contains(
            (q[i], q[i + 1]),
        ) by {
            assert(q[i] == p[i + 1] && q[i + 1] == p[i + 2]);
        }
        lemma_reaches_with_edge(edges, a, b, q);
        assert(q[0] == p[1] && q.last() == p.last());
        assert(edges.insert((a, b)).contains((p[0], p[1])));
        if (p[0], p[1]) == (a, b) {
            lemma_reaches_refl(edges, a);
            if reaches(edges, q[0], q.last()) {
            } else {
                lemma_reaches_concat(edges, b, a, a);
                assert(reaches(edges, b, q.last()) || reaches(edges, q[0], q.last()));
            }
        } else {
            assert(edges.contains((p[0], p[1])));
            if reaches(edges, q[0], q.last()) {
                lemma_reaches_prepend(edges, p[0], p[1], p.last());
            } else {
                lemma_reaches_prepend(edges, p[0], p[1], a);
            }
        }
    }
}

/// Recording the same navigation again changes nothing: the edges after
/// it is recorded twice are the edges after it is recorded once.
pub proof fn law_navigation_idempotent(edges: Set<(int, int)>, a: int, b: int)
    ensures
        navigation_edges(navigation_edges(edges, a, b), a, b) == navigation_edges(edges, a, b),
{
    if !(edges.contains((a, b)) || reaches(edges, b, a)) {
        assert(edges.insert((a, b)).contains((a, b)));
    }
}

/// Recording a navigation never closes a cycle: if no edge lies on a
/// cycle before, none does after.
pub proof fn law_navigation_keeps_acyclic(edges: Set<(int, int)>, a: int, b: int)
    requires
        acyclic(edges),
    ensures
        acyclic(navigation_edges(edges, a, b)),
{
    let e2 = navigation_edges(edges, a, b);
    if !(edges.contains((a, b)) || reaches(edges, b, a)) {
        assert forall|x: int, y: int| #[trigger] e2.contains((x, y)) implies !reaches(e2, y, x) by {
            if reaches(e2, y, x) {
                let p = choose|p: Seq<int>|
                    #![trigger p.len(), p[0]]
                    p.len() >= 1 && p[0] == y && p.last() == x && forall|i: int|
                        0 <= i < p.len() - 1 ==> #[trigger] e2.contains((p[i], p[i + 1]));
                lemma_reaches_with_edge(edges, a, b, p);
                if (x, y) == (a, b) {
                    if reaches(edges, b, a) {
                    } else {
                        lemma_reaches_concat(edges, b, a, a);
                    }
                } else {
                    assert(edges.contains((x, y)));
                    if reaches(edges, y, x) {
                    } else {
                        lemma_reaches_prepend(edges, x, y, a);
                        lemma_reaches_concat(edges, b, x, a);
                    }
                }
            }
        }
    }
}

/// No navigation of a session lies on a cycle: a page never leads back to
/// itself.
pub proof fn law_session_is_acyclic(s: &HistorySession)
    requires
        s.wf(),
    ensures
        acyclic(s@.edges),
{
}

/// The pages of a session are finitely many and numbered from 0: a page
/// index is in use exactly when it is below the number of pages.
pub proof fn law_session_pages_numbered(s: &HistorySession)
    requires
        s.wf(),
    ensures
        s@.nodes.dom().finite(),
        forall|i: int| #[trigger] s@.nodes.dom().contains(i) <==> 0 <= i < s@.nodes.len(),
{
}

/// The lowest-indexed page first requested at a URI is unique.
pub proof fn law_first_match_is_unique(
    nodes: Map<int, HistoryItemView>,
    i: int,
    j: int,
    original_uri: Seq<char>,
)
    requires
        is_first_match(nodes, i, original_uri),
        is_first_match(nodes, j, original_uri),
    ensures
        i == j,
{
    if i < j {
        assert(nodes[i].original_uri != original_uri);
    }
    if j < i {
        assert(nodes[j].original_uri != original_uri);
    }
}

/// Looking a page up, or adding it, a second time gives the page the
/// first call gave and changes nothing: after `find_or_add_uri` has given
/// `i` for `uri`, a second call for `uri` leaves the session as it is and
/// gives `i` again.
pub proof fn law_find_or_add_twice(
    s0: HistorySessionView,
    s1: HistorySessionView,
    s2: HistorySessionView,
    uri: Seq<char>,
    i: int,
    j: int,
)
    requires
        find_or_add_outcome(s0, s1, uri, i),
        find_or_add_outcome(s1, s2, uri, j),
    ensures
        j == i,
        s2 == s1,
{
    assert(s1.nodes[i].original_uri == uri);
    assert(!has_no_match(s1.nodes, uri));
    law_first_match_is_unique(s2.nodes, i, j, uri);
}

/// What a lookup gives back of a recording: once page `a` is the page
/// first requested at `original_uri` (as `find_or_add_uri` and
/// `add_navigation` promise), any outcome that `find_uri` may give for
/// that URI is `a`.
pub proof fn law_lookup_finds_recorded(
    nodes: Map<int, HistoryItemView>,
    a: int,
    original_uri: Seq<char>,
    found: Option<usize>,
)
    requires
        is_first_match(nodes, a, original_uri),
        found matches Some(i) ==> is_first_match(nodes, i as int, original_uri),
        found is None ==> has_no_match(nodes, original_uri),
    ensures
        found == Some(a as usize),
{
    match found {
        Some(i) => law_first_match_is_unique(nodes, i as int, a, original_uri),
        None => {
            assert(nodes[a].original_uri == original_uri);
        },
    }
}

/// Updating where a page ended up and its title changes no lookup: the
/// page first requested at any URI stays the same.
pub proof fn law_update_keeps_lookups(
    nodes: Map<int, HistoryItemView>,
    i: int,
    uri: Option<String>,
    title: Option<String>,
    j: int,
    original_uri: Seq<char>,
)
    requires
        nodes.dom().contains(i),
    ensures
        is_first_match(nodes.insert(i, updated_item(nodes[i], uri, title)), j, original_uri)
            <==> is_first_match(nodes, j, original_uri),
        has_no_match(nodes.insert(i, updated_item(nodes[i], uri, title)), original_uri)
            <==> has_no_match(nodes, original_uri),
{
    let n2 = nodes.insert(i, updated_item(nodes[i], uri, title));
    assert(n2.dom() =~= nodes.dom());
    assert forall|k: int| nodes.dom().contains(k) implies #[trigger] n2[k].original_uri
        == nodes[k].original_uri by {
    }
    if has_no_match(nodes, original_uri) {
        assert forall|k: int| n2.dom().contains(k) implies #[trigger] n2[k].original_uri
            != original_uri by {
            assert(nodes[k].original_uri != original_uri);
        }
    }
    if has_no_match(n2, original_uri) {
        assert forall|k: int| nodes.dom().contains(k) implies #[trigger] nodes[k].original_uri
            != original_uri by {
            assert(n2[k].original_uri != original_uri);
        }
    }
    if is_first_match(nodes, j, original_uri) {
        assert forall|k: int|
            0 <= k < j && n2.dom().contains(k) implies #[trigger] n2[k].original_uri
            != original_uri by {
            assert(nodes[k].original_uri != original_uri);
        }
    }
    if is_first_match(n2, j, original_uri) {
        assert forall|k: int|
            0 <= k < j && nodes.dom().contains(k) implies #[trigger] nodes[k].original_uri
            != original_uri by {
            assert(n2[k].original_uri != original_uri);
        }
    }
}

} // verus!
