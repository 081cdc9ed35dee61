use crate::history::{
    added_pages_fresh, has_no_match, is_first_match, later_than, navigation_edges, updated_item, HistoryItem, HistoryItemView,
    HistorySession,
    HistorySessionView,
};
use crate::order::{
    lemma_text_lt_asymmetric, lemma_text_lt_irreflexive, lemma_text_lt_total,
    lemma_text_lt_transitive, str_lt, text_lt,
};
use crate::text::{blank, is_blank, str_eq};
use vstd::prelude::*;

verus! {

/// The most suggestions the address bar offers.
pub const MAX_SUGGESTIONS: usize = 5;

/// Whether item `i` is preferred to item `j`: it is more recent, or as
/// recent and earlier in the list.
pub open spec fn preferred(l: Seq<HistoryItemView>, i: int, j: int) -> bool {
    later_than(l[i].timestamp, l[j].timestamp) || (l[i].timestamp == l[j].timestamp && i < j)
}

/// Whether item `i` stands for its URI: it is preferred to every other
/// item with the same URI.
pub open spec fn stands_for_uri(l: Seq<HistoryItemView>, i: int) -> bool {
    &&& 0 <= i < l.len()
    &&& forall|j: int|
        0 <= j < l.len() && j != i && #[trigger] l[j].uri == l[i].uri ==> preferred(l, i, j)
}

/// Whether item `i` is suggested for its original URI: it stands for its
/// URI, and among the items that stand for their URI and share its
/// original URI it is the most recent, or as recent and of a smaller URI.
pub open spec fn suggested_for_original(l: Seq<HistoryItemView>, i: int) -> bool {
    &&& stands_for_uri(l, i)
    &&& forall|j: int|
        0 <= j < l.len() && j != i && stands_for_uri(l, j) && #[trigger] l[j].original_uri
            == l[i].original_uri ==> (later_than(l[i].timestamp, l[j].timestamp) || (l[i].timestamp
            == l[j].timestamp && text_lt(l[i].uri, l[j].uri)))
}

/// Whether the item is one of the suggested items of the list.
pub open spec fn is_suggested(l: Seq<HistoryItemView>, x: HistoryItemView) -> bool {
    exists|i: int| #[trigger] suggested_for_original(l, i) && l[i] == x
}

/// The views of a list of items.
pub open spec fn item_views(v: Seq<HistoryItem>) -> Seq<HistoryItemView> {
    v.map_values(|x: HistoryItem| x@)
}

/// Whether the suggestions `r` are the first ones of the list `l`: each is
/// suggested, their original URIs increase strictly, and any suggested
/// item that is left out comes after all of them, with the list full.
pub open spec fn are_first_suggestions(l: Seq<HistoryItemView>, r: Seq<HistoryItemView>) -> bool {
    &&& r.len() <= MAX_SUGGESTIONS
    &&& forall|k: int| 0 <= k < r.len() ==> is_suggested(l, #[trigger] r[k])
    &&& forall|k1: int, k2: int|
        0 <= k1 < k2 < r.len() ==> text_lt(#[trigger] r[k1].original_uri, #[trigger] r[k2].original_uri)
    &&& forall|i: int|
        #[trigger] suggested_for_original(l, i) && !r.contains(l[i]) ==> r.len() == MAX_SUGGESTIONS
            && text_lt(r[r.len() - 1].original_uri, l[i].original_uri)
}

impl HistoryItem {
    /// A copy of the item.
    pub fn duplicate(&self) -> (r: HistoryItem)
        ensures
            r@ == self@,
    {
        HistoryItem {
            uri: self.uri.clone(),
            original_uri: self.original_uri.clone(),
            title: self.title.clone(),
            timestamp: self.timestamp,
        }
    }
}

/// Which items stand for their URI.
fn uri_standins(items: &Vec<HistoryItem>) -> (r: Vec<bool>)
    ensures
        r@.len() == items@.len(),
        forall|i: int| 0 <= i < r@.len() ==> #[trigger] r@[i] == stands_for_uri(item_views(items@), i),
{
    let ghost l = item_views(items@);
    let n = items.len();
    let mut r: Vec<bool> = Vec::new();
    let mut i: usize = 0;
    while i < n
        invariant
            n == items@.len(),
            l == item_views(items@),
            i <= n,
            r@.len() == i,
            forall|k: int| 0 <= k < i ==> #[trigger] r@[k] == stands_for_uri(l, k),
        decreases n - i,
    {
        let mut ok = true;
        let mut j: usize = 0;
        while j < n
            invariant
                n == items@.len(),
                l == item_views(items@),
                i < n,
                j <= n,
                ok == forall|m: int|
                    0 <= m < j && m != i && #[trigger] l[m].uri == l[i as int].uri ==> preferred(
                        l,
                        i as int,
                        m,
                    ),
            decreases n - j,
        {
            assert(l[j as int] == items@[j as int]@);
            assert(l[i as int] == items@[i as int]@);
            if j != i && str_eq(items[j].uri().as_str(), items[i].uri().as_str()) {
                let better = items[i].timestamp().is_later(&items[j].timestamp()) || (items[i].timestamp()
                    == items[j].timestamp() && i < j);
                ok = ok && better;
            }
            j = j + 1;
        }
        r.push(ok);
        i = i + 1;
    }
    r
}

/// Which items are suggested for their original URI.
fn original_standins(items: &Vec<HistoryItem>, uri_flags: &Vec<bool>) -> (r: Vec<bool>)
    requires
        uri_flags@.len() == items@.len(),
        forall|i: int|
            0 <= i < uri_flags@.len() ==> #[trigger] uri_flags@[i] == stands_for_uri(
                item_views(items@),
                i,
            ),
    ensures
        r@.len() == items@.len(),
        forall|i: int|
            0 <= i < r@.len() ==> #[trigger] r@[i] == suggested_for_original(item_views(items@), i),
{
    let ghost l = item_views(items@);
    let n = items.len();
    let mut r: Vec<bool> = Vec::new();
    let mut i: usize = 0;
    while i < n
        invariant
            n == items@.len(),
            l == item_views(items@),
            uri_flags@.len() == n,
            forall|k: int| 0 <= k < n ==> #[trigger] uri_flags@[k] == stands_for_uri(l, k),
            i <= n,
            r@.len() == i,
            forall|k: int| 0 <= k < i ==> #[trigger] r@[k] == suggested_for_original(l, k),
        decreases n - i,
    {
        let mut ok = uri_flags[i];
        let mut j: usize = 0;
        while j < n
            invariant
                n == items@.len(),
                l == item_views(items@),
                uri_flags@.len() == n,
                forall|k: int| 0 <= k < n ==> #[trigger] uri_flags@[k] == stands_for_uri(l, k),
                i < n,
                j <= n,
                ok == (stands_for_uri(l, i as int) && forall|m: int|
                    0 <= m < j && m != i && stands_for_uri(l, m) && #[trigger] l[m].original_uri
                        == l[i as int].original_uri ==> (later_than(l[i as int].timestamp, l[m].timestamp)
                        || (l[i as int].timestamp == l[m].timestamp && text_lt(
                        l[i as int].uri,
                        l[m].uri,
                    )))),
            decreases n - j,
        {
            assert(l[j as int] == items@[j as int]@);
            assert(l[i as int] == items@[i as int]@);
            if j != i && uri_flags[j] && str_eq(
                items[j].original_uri().as_str(),
                items[i].original_uri().as_str(),
            ) {
                let better = items[i].timestamp().is_later(&items[j].timestamp()) || (items[i].timestamp()
                    == items[j].timestamp() && str_lt(items[i].uri().as_str(), items[j].uri().as_str()));
                ok = ok && better;
            }
            j = j + 1;
        }
        r.push(ok);
        i = i + 1;
    }
    r
}

/// Two items suggested for the same original URI are the same item.
proof fn lemma_one_suggestion_per_original(l: Seq<HistoryItemView>, i: int, j: int)
    requires
        suggested_for_original(l, i),
        suggested_for_original(l, j),
        l[i].original_uri == l[j].original_uri,
    ensures
        i == j,
{
    if i != j {
        assert(l[j].original_uri == l[i].original_uri);
        assert(later_than(l[i].timestamp, l[j].timestamp) || (l[i].timestamp == l[j].timestamp && text_lt(
            l[i].uri,
            l[j].uri,
        )));
        assert(later_than(l[j].timestamp, l[i].timestamp) || (l[j].timestamp == l[i].timestamp && text_lt(
            l[j].uri,
            l[i].uri,
        )));
        lemma_text_lt_asymmetric(l[i].uri, l[j].uri);
    }
}

/// The address bar never suggests a page twice: the suggestions differ in
/// original URI and in URI.
pub proof fn law_suggestions_are_distinct(l: Seq<HistoryItemView>, r: Seq<HistoryItemView>)
    requires
        are_first_suggestions(l, r),
    ensures
        forall|k1: int, k2: int|
            0 <= k1 < k2 < r.len() ==> #[trigger] r[k1].original_uri != #[trigger] r[k2].original_uri
                && r[k1].uri != r[k2].uri,
{
    assert forall|k1: int, k2: int| 0 <= k1 < k2 < r.len() implies #[trigger] r[k1].original_uri
        != #[trigger] r[k2].original_uri && r[k1].uri != r[k2].uri by {
        assert(text_lt(r[k1].original_uri, r[k2].original_uri));
        lemma_text_lt_irreflexive(r[k1].original_uri);
        assert(is_suggested(l, r[k1]));
        assert(is_suggested(l, r[k2]));
        let i = choose|i: int| #[trigger] suggested_for_original(l, i) && l[i] == r[k1];
        let j = choose|j: int| #[trigger] suggested_for_original(l, j) && l[j] == r[k2];
        if r[k1].uri == r[k2].uri {
            assert(i != j);
            assert(l[j].uri == l[i].uri);
            assert(preferred(l, i, j));
            assert(preferred(l, j, i));
        }
    }
}

/// The suggestions that a list of matching history items gives: one item
/// per URI (the most recent), then one per original URI (the most recent,
/// or of the smallest URI), at most five, by increasing original URI.
pub fn rank_suggestions(items: &Vec<HistoryItem>) -> (r: Vec<HistoryItem>)
    ensures
        are_first_suggestions(item_views(items@), item_views(r@)),
{
    let ghost l = item_views(items@);
    let n = items.len();
    let uri_flags = uri_standins(items);
    let flags = original_standins(items, &uri_flags);
    let mut r: Vec<HistoryItem> = Vec::new();
    let mut last: Option<usize> = None;
    let mut round: usize = 0;
    while round < MAX_SUGGESTIONS
        invariant
            n == items@.len(),
            l == item_views(items@),
            flags@.len() == n,
            forall|k: int| 0 <= k < n ==> #[trigger] flags@[k] == suggested_for_original(l, k),
            r@.len() == round,
            round <= MAX_SUGGESTIONS,
            round > 0 <==> last is Some,
            last matches Some(li) ==> li < n && suggested_for_original(l, li as int)
                && item_views(r@)[round - 1] == l[li as int],
            forall|k: int|
                0 <= k < item_views(r@).len() ==> is_suggested(l, #[trigger] item_views(r@)[k]),
            forall|k1: int, k2: int|
                0 <= k1 < k2 < item_views(r@).len() ==> text_lt(
                    #[trigger] item_views(r@)[k1].original_uri,
                    #[trigger] item_views(r@)[k2].original_uri,
                ),
            forall|i: int|
                #![trigger suggested_for_original(l, i)]
                suggested_for_original(l, i) && !item_views(r@).contains(l[i]) ==> match last {
                    Some(li) => text_lt(l[li as int].original_uri, l[i].original_uri),
                    None => true,
                },
        decreases MAX_SUGGESTIONS - round,
    {
        let mut best: Option<usize> = None;
        let mut j: usize = 0;
        while j < n
            invariant
                n == items@.len(),
                l == item_views(items@),
                flags@.len() == n,
                forall|k: int| 0 <= k < n ==> #[trigger] flags@[k] == suggested_for_original(l, k),
                last matches Some(li) ==> li < n,
                j <= n,
                best matches Some(b) ==> b < j && suggested_for_original(l, b as int) && match last {
                    Some(li) => text_lt(l[li as int].original_uri, l[b as int].original_uri),
                    None => true,
                },
                forall|m: int|
                    #![trigger suggested_for_original(l, m)]
                    0 <= m < j && suggested_for_original(l, m) && match last {
                        Some(li) => text_lt(l[li as int].original_uri, l[m].original_uri),
                        None => true,
                    } ==> match best {
                        Some(b) => l[b as int].original_uri == l[m].original_uri || text_lt(
                            l[b as int].original_uri,
                            l[m].original_uri,
                        ),
                        None => false,
                    },
            decreases n - j,
        {
            if flags[j] {
                let after = match last {
                    Some(li) => str_lt(items[li].original_uri().as_str(), items[j].original_uri().as_str()),
                    None => true,
                };
                if after {
                    let better = match best {
                        Some(b) => str_lt(items[j].original_uri().as_str(), items[b].original_uri().as_str()),
                        None => true,
                    };
                    if better {
                        proof {
                            assert forall|m: int|
                                #![trigger suggested_for_original(l, m)]
                                0 <= m < j + 1 && suggested_for_original(l, m) && match last {
                                    Some(li) => text_lt(l[li as int].original_uri, l[m].original_uri),
                                    None => true,
                                } implies l[j as int].original_uri == l[m].original_uri || text_lt(
                                l[j as int].original_uri,
                                l[m].original_uri,
                            ) by {
                                if m < j {
                                    if let Some(b) = best {
                                        if l[b as int].original_uri != l[m].original_uri {
                                            lemma_text_lt_transitive(
                                                l[j as int].original_uri,
                                                l[b as int].original_uri,
                                                l[m].original_uri,
                                            );
                                        }
                                    }
                                }
                            }
                        }
                        best = Some(j);
                    } else {
                        proof {
                            let b = best->0;
                            lemma_text_lt_total(l[j as int].original_uri, l[b as int].original_uri);
                        }
                    }
                }
            }
            j = j + 1;
        }
        match best {
            Some(b) => {
                let ghost old_r = item_views(r@);
                r.push(items[b].duplicate());
                proof {
                    let nr = item_views(r@);
                    assert(nr =~= old_r.push(l[b as int]));
                    assert(is_suggested(l, nr[round as int]));
                    assert forall|k1: int, k2: int|
                        0 <= k1 < k2 < nr.len() implies text_lt(
                        #[trigger] nr[k1].original_uri,
                        #[trigger] nr[k2].original_uri,
                    ) by {
                        if k2 == round {
                            if let Some(li) = last {
                                if k1 < round - 1 {
                                    lemma_text_lt_transitive(
                                        nr[k1].original_uri,
                                        l[li as int].original_uri,
                                        l[b as int].original_uri,
                                    );
                                }
                            }
                        } else {
                            assert(nr[k1] == old_r[k1] && nr[k2] == old_r[k2]);
                        }
                    }
                    assert forall|i: int|
                        #![trigger suggested_for_original(l, i)]
                        suggested_for_original(l, i) && !nr.contains(l[i]) implies text_lt(
                        l[b as int].original_uri,
                        l[i].original_uri,
                    ) by {
                        if !old_r.contains(l[i]) {
                            lemma_text_lt_total(l[b as int].original_uri, l[i].original_uri);
                            if l[b as int].original_uri == l[i].original_uri {
                                lemma_one_suggestion_per_original(l, b as int, i);
                                assert(nr[round as int] == l[i]);
                            }
                        } else {
                            let k = choose|k: int| 0 <= k < old_r.len() && old_r[k] == l[i];
                            assert(nr[k] == l[i]);
                        }
                    }
                }
                last = Some(b);
            },
            None => {
                proof {
                    assert forall|i: int|
                        #![trigger suggested_for_original(l, i)]
                        suggested_for_original(l, i) implies item_views(r@).contains(l[i]) by {
                        if !item_views(r@).contains(l[i]) {
                            assert(0 <= i < n);
                        }
                    }
                }
                return r;
            },
        }
        round = round + 1;
    }
    r
}

} // verus!

verus! {

/// The sessions of the browser's history: those loaded from earlier runs
/// and the current one.
pub struct HistoryManager {
    pub(crate) history_sessions: Vec<HistorySession>,
    pub(crate) current_session: HistorySession,
}

/// The index of the first session of `sessions` from `from` on with
/// identifier `id`, or `sessions.len()` if there is none.
pub open spec fn first_session_with(sessions: Seq<HistorySessionView>, id: u128, from: int) -> int
    decreases sessions.len() - from,
{
    if from >= sessions.len() {
        sessions.len() as int
    } else if sessions[from].id == id {
        from
    } else {
        first_session_with(sessions, id, from + 1)
    }
}

/// The session that a search hit's session identifier names: the current
/// session if it has that identifier, else the first earlier session that
/// has it.
pub open spec fn session_named(
    sessions: Seq<HistorySessionView>,
    current: HistorySessionView,
    id: u128,
) -> Option<HistorySessionView> {
    if current.id == id {
        Some(current)
    } else {
        let k = first_session_with(sessions, id, 0);
        if k < sessions.len() {
            Some(sessions[k])
        } else {
            None
        }
    }
}

/// Whether a search hit names a page that the sessions hold.
pub open spec fn hit_resolves(
    sessions: Seq<HistorySessionView>,
    current: HistorySessionView,
    hit: (u128, usize),
) -> bool {
    match session_named(sessions, current, hit.0) {
        Some(s) => s.nodes.dom().contains(hit.1 as int),
        None => false,
    }
}

/// The page a resolving search hit names.
pub open spec fn hit_item(
    sessions: Seq<HistorySessionView>,
    current: HistorySessionView,
    hit: (u128, usize),
) -> HistoryItemView {
    session_named(sessions, current, hit.0)->0.nodes[hit.1 as int]
}

impl HistoryManager {
    /// The views of the earlier sessions.
    pub closed spec fn sessions(&self) -> Seq<HistorySessionView> {
        self.history_sessions@.map_values(|s: HistorySession| s@)
    }

    /// The view of the current session.
    pub closed spec fn current(&self) -> HistorySessionView {
        self.current_session@
    }

    /// Every session is well formed.
    pub closed spec fn wf(&self) -> bool {
        &&& self.current_session.wf()
        &&& forall|k: int|
            0 <= k < self.history_sessions@.len() ==> #[trigger] self.history_sessions@[k].wf()
    }

    /// The current session has room for another navigation.
    pub closed spec fn has_room(&self) -> bool {
        self.current_session.has_room()
    }

    /// Whether the current session has room for another navigation.
    pub fn room_left(&self) -> (r: bool)
        requires
            self.wf(),
        ensures
            r == self.has_room(),
    {
        self.current_session.room_left()
    }

    /// A manager of the given sessions.
    pub fn new(history_sessions: Vec<HistorySession>, current_session: HistorySession) -> (r: Self)
        requires
            current_session.wf(),
            forall|k: int| 0 <= k < history_sessions@.len() ==> #[trigger] history_sessions@[k].wf(),
        ensures
            r.wf(),
            r.current() == current_session@,
            r.sessions() == history_sessions@.map_values(|s: HistorySession| s@),
    {
        HistoryManager { history_sessions, current_session }
    }

    /// The current session.
    pub fn get_current_session(&self) -> (r: &HistorySession)
        requires
            self.wf(),
        ensures
            r@ == self.current(),
            r.wf(),
    {
        &self.current_session
    }

    /// Records a navigation in the current session, as
    /// `HistorySession::add_navigation` does.
    pub fn add_navigation(&mut self, old_uri: String, new_uri: String) -> (r: Option<(usize, usize)>)
        requires
            old(self).wf(),
            old_uri@ != new_uri@ ==> old(self).has_room(),
        ensures
            final(self).wf(),
            final(self).sessions() == old(self).sessions(),
            final(self).current().id == old(self).current().id,
            old_uri@ == new_uri@ ==> r is None && final(self).current() == old(self).current(),
            old_uri@ != new_uri@ ==> r is Some,
            old(self).current().nodes.len() <= final(self).current().nodes.len()
                <= old(self).current().nodes.len() + 2,
            added_pages_fresh(old(self).current().nodes, final(self).current().nodes),
            r matches Some((a, b)) ==> {
                &&& is_first_match(final(self).current().nodes, a as int, old_uri@)
                &&& is_first_match(final(self).current().nodes, b as int, new_uri@)
                &&& final(self).current().nodes.dom() == old(self).current().nodes.dom().insert(
                    a as int,
                ).insert(b as int)
                &&& forall|j: int|
                    #![trigger final(self).current().nodes[j]]
                    old(self).current().nodes.dom().contains(j)
                        ==> final(self).current().nodes[j] == old(self).current().nodes[j]
                &&& final(self).current().edges == navigation_edges(
                    old(self).current().edges,
                    a as int,
                    b as int,
                )
            },
    {
        self.current_session.add_navigation(old_uri, new_uri)
    }

    /// Records that a link on the page first requested at `old_uri` led to
    /// `new_uri`: the navigation goes into the current session (as
    /// `HistorySession::add_navigation` records it), and then the page the
    /// link was on takes the address it ended up at, if known, and the title
    /// `title`.
    pub fn link_clicked(
        &mut self,
        old_uri: String,
        new_uri: String,
        current_uri: Option<String>,
        title: String,
    ) -> (r: Option<(usize, usize)>)
        requires
            old(self).wf(),
            old_uri@ != new_uri@ ==> old(self).has_room(),
        ensures
            final(self).wf(),
            final(self).sessions() == old(self).sessions(),
            final(self).current().id == old(self).current().id,
            old_uri@ == new_uri@ ==> r is None,
            old_uri@ == new_uri@ ==> final(self).current().edges == old(self).current().edges,
            old_uri@ == new_uri@ && has_no_match(old(self).current().nodes, old_uri@)
                ==> final(self).current().nodes == old(self).current().nodes,
            forall|i: int|
                old_uri@ == new_uri@ && is_first_match(old(self).current().nodes, i, old_uri@)
                    ==> final(self).current().nodes == old(self).current().nodes.insert(
                    i,
                    updated_item(old(self).current().nodes[i], current_uri, Some(title)),
                ),
            old_uri@ != new_uri@ ==> r is Some,
            old(self).current().nodes.len() <= final(self).current().nodes.len()
                <= old(self).current().nodes.len() + 2,
            r matches Some((a, b)) ==> {
                &&& is_first_match(final(self).current().nodes, a as int, old_uri@)
                &&& is_first_match(final(self).current().nodes, b as int, new_uri@)
                &&& final(self).current().nodes[a as int].title == title@
                &&& (current_uri matches Some(u) ==> final(self).current().nodes[a as int].uri
                    == u@)
                &&& (current_uri is None && !old(self).current().nodes.dom().contains(a as int)
                    ==> final(self).current().nodes[a as int].uri == old_uri@)
                &&& (!old(self).current().nodes.dom().contains(b as int)
                    ==> final(self).current().nodes[b as int].uri == new_uri@
                    && final(self).current().nodes[b as int].title == Seq::<char>::empty())
                &&& final(self).current().nodes.dom() == old(self).current().nodes.dom().insert(
                    a as int,
                ).insert(b as int)
                &&& forall|j: int|
                    #![trigger final(self).current().nodes[j]]
                    old(self).current().nodes.dom().contains(j) && j != a
                        ==> final(self).current().nodes[j] == old(self).current().nodes[j]
                &&& final(self).current().edges == navigation_edges(
                    old(self).current().edges,
                    a as int,
                    b as int,
                )
            },
    {
        let ghost nodes0 = self.current_session@.nodes;
        let r = self.current_session.add_navigation(old_uri.clone(), new_uri);
        let ghost nodes1 = self.current_session@.nodes;
        self.current_session.update_uri(old_uri.as_str(), current_uri, Some(title));
        proof {
            let nodes2 = self.current_session@.nodes;
            match r {
                Some((a, b)) => {
                    let item = updated_item(nodes1[a as int], current_uri, Some(title));
                    assert(nodes2 == nodes1.insert(a as int, item));
                    assert(nodes2.dom() =~= nodes1.dom());
                    assert(is_first_match(nodes2, a as int, old_uri@)) by {
                        assert forall|j: int|
                            0 <= j < a && nodes2.dom().contains(j) implies #[trigger] nodes2[j].original_uri
                            != old_uri@ by {
                            assert(nodes2[j] == nodes1[j]);
                        }
                    }
                    assert(b != a);
                    assert(is_first_match(nodes2, b as int, new_uri@)) by {
                        assert(nodes2[b as int] == nodes1[b as int]);
                        assert forall|j: int|
                            0 <= j < b && nodes2.dom().contains(j) implies #[trigger] nodes2[j].original_uri
                            != new_uri@ by {
                            if j != a {
                                assert(nodes2[j] == nodes1[j]);
                            }
                        }
                    }
                    assert(nodes1.dom().contains(b as int));
                    assert(nodes1.dom().contains(a as int));
                    assert forall|j: int|
                        #![trigger nodes2[j]]
                        nodes0.dom().contains(j) && j != a implies nodes2[j] == nodes0[j] by {
                        assert(nodes2[j] == nodes1[j]);
                    }
                },
                None => {},
            }
        }
        r
    }

    /// The page a search hit names, if the sessions hold it.
    pub fn hit_page(&self, hit: (u128, usize)) -> (r: Option<HistoryItem>)
        requires
            self.wf(),
        ensures
            r is Some <==> hit_resolves(self.sessions(), self.current(), hit),
            r matches Some(item) ==> item@ == hit_item(self.sessions(), self.current(), hit),
    {
        if self.current_session.id() == hit.0 {
            return self.current_session.item(hit.1);
        }
        let ghost ss = self.sessions();
        let mut k: usize = 0;
        while k < self.history_sessions.len()
            invariant
                self.wf(),
                ss == self.sessions(),
                ss.len() == self.history_sessions@.len(),
                self.current().id != hit.0,
                k <= ss.len(),
                first_session_with(ss, hit.0, 0) == first_session_with(ss, hit.0, k as int),
            decreases ss.len() - k,
        {
            assert(ss[k as int] == self.history_sessions@[k as int]@);
            if self.history_sessions[k].id() == hit.0 {
                assert(self.history_sessions@[k as int].wf());
                assert(ss[k as int].id == hit.0);
                assert(first_session_with(ss, hit.0, k as int) == k);
                return self.history_sessions[k].item(hit.1);
            }
            k = k + 1;
        }
        None
    }

    /// Whether every search hit names a page that the sessions hold.
    pub fn hits_resolve(&self, hits: &Vec<(u128, usize)>) -> (r: bool)
        requires
            self.wf(),
        ensures
            r == forall|k: int|
                0 <= k < hits@.len() ==> hit_resolves(self.sessions(), self.current(), #[trigger] hits@[k]),
    {
        let mut k: usize = 0;
        while k < hits.len()
            invariant
                self.wf(),
                k <= hits@.len(),
                forall|m: int|
                    0 <= m < k ==> hit_resolves(self.sessions(), self.current(), #[trigger] hits@[m]),
            decreases hits@.len() - k,
        {
            if self.hit_page(hits[k]).is_none() {
                return false;
            }
            k = k + 1;
        }
        true
    }

    /// The suggestions for what is typed in the address bar, given the
    /// search hits for it: none for blank text; else the first suggestions
    /// among the pages the hits name, in the order of the hits.
    pub fn get_suggestions(&self, search: &str, hits: &Vec<(u128, usize)>) -> (r: Vec<
        HistoryItem,
    >)
        requires
            self.wf(),
            !is_blank(search@) ==> forall|k: int|
                0 <= k < hits@.len() ==> hit_resolves(self.sessions(), self.current(), #[trigger] hits@[k]),
        ensures
            is_blank(search@) ==> r@.len() == 0,
            !is_blank(search@) ==> are_first_suggestions(
                hits@.map_values(|h: (u128, usize)| hit_item(self.sessions(), self.current(), h)),
                item_views(r@),
            ),
    {
        if blank(search) {
            return Vec::new();
        }
        let ghost want = hits@.map_values(
            |h: (u128, usize)| hit_item(self.sessions(), self.current(), h),
        );
        let mut items: Vec<HistoryItem> = Vec::new();
        let mut k: usize = 0;
        while k < hits.len()
            invariant
                self.wf(),
                forall|m: int|
                    0 <= m < hits@.len() ==> hit_resolves(self.sessions(), self.current(), #[trigger] hits@[m]),
                want == hits@.map_values(
                    |h: (u128, usize)| hit_item(self.sessions(), self.current(), h),
                ),
                k <= hits@.len(),
                item_views(items@) == want.take(k as int),
            decreases hits@.len() - k,
        {
            assert(want[k as int] == hit_item(self.sessions(), self.current(), hits@[k as int]));
            let ghost before = items@;
            match self.hit_page(hits[k]) {
                Some(item) => {
                    assert(want.len() == hits@.len());
                    assert(item_views(before).len() == before.len());
                    assert(before.len() == k);
                    items.push(item);
                    assert(item_views(items@) =~= item_views(before).push(want[k as int]));
                },
                None => {
                    assert(hit_resolves(self.sessions(), self.current(), hits@[k as int]));
                },
            }
            assert(want.take(k + 1) =~= want.take(k as int).push(want[k as int]));
            k = k + 1;
        }
        assert(want.take(hits@.len() as int) =~= want);
        rank_suggestions(&items)
    }

    /// The suggestions as `get_suggestions` gives them, when the text is
    /// blank or every search hit names a page that the sessions hold; `None`
    /// when the text is not blank and a hit names no such page.
    pub fn try_get_suggestions(&self, search: &str, hits: &Vec<(u128, usize)>) -> (r: Option<
        Vec<HistoryItem>,
    >)
        requires
            self.wf(),
        ensures
            r is Some <==> (is_blank(search@) || forall|k: int|
                0 <= k < hits@.len() ==> hit_resolves(self.sessions(), self.current(), #[trigger] hits@[k])),
            r matches Some(v) ==> (is_blank(search@) ==> v@.len() == 0),
            r matches Some(v) ==> (!is_blank(search@) ==> are_first_suggestions(
                hits@.map_values(|h: (u128, usize)| hit_item(self.sessions(), self.current(), h)),
                item_views(v@),
            )),
    {
        if blank(search) || self.hits_resolve(hits) {
            Some(self.get_suggestions(search, hits))
        } else {
            None
        }
    }
}

} // verus!
