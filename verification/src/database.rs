use crate::history::{later_than, Timestamp};
use vstd::multiset::Multiset;
use vstd::prelude::*;

verus! {

broadcast use vstd::seq_lib::group_to_multiset_ensures;

/// A visit kept in the browser's database: its identifier, where it was
/// first requested and where it ended up, its title if it had one, and
/// when it happened.
pub struct HistoryRecord {
    pub id: u128,
    pub original_uri: String,
    pub uri: String,
    pub title: Option<String>,
    pub timestamp: Timestamp,
}

/// The plain values of a history record.
pub struct HistoryRecordView {
    pub id: u128,
    pub original_uri: Seq<char>,
    pub uri: Seq<char>,
    pub title: Option<Seq<char>>,
    pub timestamp: Timestamp,
}

impl View for HistoryRecord {
    type V = HistoryRecordView;

    open spec fn view(&self) -> HistoryRecordView {
        HistoryRecordView {
            id: self.id,
            original_uri: self.original_uri@,
            uri: self.uri@,
            title: match self.title {
                Some(t) => Some(t@),
                None => None,
            },
            timestamp: self.timestamp,
        }
    }
}

/// The views of a list of records.
pub open spec fn record_views(v: Seq<HistoryRecord>) -> Seq<HistoryRecordView> {
    v.map_values(|r: HistoryRecord| r@)
}

/// Whether the records go from the most recent to the oldest.
pub open spec fn newest_to_oldest(s: Seq<HistoryRecordView>) -> bool {
    forall|i: int, j: int|
        0 <= i < j < s.len() ==> !later_than(#[trigger] s[j].timestamp, #[trigger] s[i].timestamp)
}

/// The records of the history, from the most recent to the oldest.
pub fn newest_first(records: Vec<HistoryRecord>) -> (r: Vec<HistoryRecord>)
    ensures
        newest_to_oldest(record_views(r@)),
        record_views(r@).to_multiset() == record_views(records@).to_multiset(),
{
    let ghost all = record_views(records@).to_multiset();
    let mut rest = records;
    let mut r: Vec<HistoryRecord> = Vec::new();
    while rest.len() > 0
        invariant
            newest_to_oldest(record_views(r@)),
            record_views(r@).to_multiset().add(record_views(rest@).to_multiset()) == all,
        decreases rest@.len(),
    {
        let ghost before_rest = rest@;
        let ghost before_r = record_views(r@);
        let x = rest.pop().unwrap();
        proof {
            assert(before_rest =~= rest@.push(x));
            assert(record_views(before_rest) =~= record_views(rest@).push(x@));
        }
        let mut p: usize = 0;
        while p < r.len() && !x.timestamp.is_later(&r[p].timestamp)
            invariant
                p <= r@.len(),
                before_r == record_views(r@),
                forall|k: int| 0 <= k < p ==> !later_than(x@.timestamp, #[trigger] before_r[k].timestamp),
            decreases r@.len() - p,
        {
            assert(before_r[p as int] == r@[p as int]@);
            p = p + 1;
        }
        proof {
            if p < r@.len() {
                assert(before_r[p as int] == r@[p as int]@);
            }
        }
        let ghost xv = x@;
        r.insert(p, x);
        proof {
            let now = record_views(r@);
            assert(now =~= before_r.insert(p as int, xv));
            assert forall|i: int, j: int|
                0 <= i < j < now.len() implies !later_than(
                #[trigger] now[j].timestamp,
                #[trigger] now[i].timestamp,
            ) by {
                if j < p {
                    assert(now[i] == before_r[i] && now[j] == before_r[j]);
                } else if j == p {
                    assert(now[i] == before_r[i]);
                } else if i > p {
                    assert(now[i] == before_r[i - 1] && now[j] == before_r[j - 1]);
                } else if i == p {
                    assert(now[j] == before_r[j - 1]);
                    assert(!later_than(before_r[j - 1].timestamp, before_r[p as int].timestamp)
                        || j - 1 == p);
                } else {
                    assert(now[i] == before_r[i]);
                    assert(now[j] == before_r[j - 1]);
                    assert(!later_than(before_r[p as int].timestamp, before_r[i].timestamp) || p
                        == before_r.len());
                }
            }
            assert(now.to_multiset() == before_r.to_multiset().insert(xv));
            assert(record_views(before_rest).to_multiset() == record_views(
                rest@,
            ).to_multiset().insert(xv));
            assert(now.to_multiset().add(record_views(rest@).to_multiset()) =~= all);
        }
    }
    assert(record_views(rest@).to_multiset() =~= Multiset::empty());
    assert(record_views(r@).to_multiset().add(Multiset::empty()) =~= record_views(
        r@,
    ).to_multiset());
    r
}

/// An entry the address bar offers: a title and an address.
pub open spec fn entry_view(e: (String, String)) -> (Seq<char>, Seq<char>) {
    (e.0@, e.1@)
}

/// The entry of a visit: its title (empty if it has none) and where it
/// ended up.
pub open spec fn visit_entry(r: HistoryRecordView) -> (Seq<char>, Seq<char>) {
    (
        match r.title {
            Some(t) => t,
            None => Seq::empty(),
        },
        r.uri,
    )
}

/// The address bar's entries for a search: the visits found, then the
/// bookmarks found, then the OkuNet posts found, each bookmark and post as
/// its title and address.
pub open spec fn search_entries_spec(
    visits: Seq<HistoryRecordView>,
    bookmarks: Seq<(Seq<char>, Seq<char>)>,
    posts: Seq<(Seq<char>, Seq<char>)>,
) -> Seq<(Seq<char>, Seq<char>)> {
    visits.map_values(|r: HistoryRecordView| visit_entry(r)) + bookmarks + posts
}

fn push_entries(out: &mut Vec<(String, String)>, entries: Vec<(String, String)>)
    ensures
        final(out)@.map_values(|e: (String, String)| entry_view(e)) == old(out)@.map_values(
            |e: (String, String)| entry_view(e),
        ) + entries@.map_values(|e: (String, String)| entry_view(e)),
{
    let ghost start = out@.map_values(|e: (String, String)| entry_view(e));
    let ghost want = entries@.map_values(|e: (String, String)| entry_view(e));
    let n = entries.len();
    let mut rest = entries;
    let mut k: usize = 0;
    while rest.len() > 0
        invariant
            want.len() == n,
            out@.map_values(|e: (String, String)| entry_view(e)) == start + want.take(k as int),
            k + rest@.len() == want.len(),
            forall|i: int|
                0 <= i < rest@.len() ==> entry_view(#[trigger] rest@[i]) == want[k + i],
        decreases rest@.len(),
    {
        let e = rest.remove(0);
        let ghost ev = entry_view(e);
        assert(ev == want[k as int]);
        let ghost before = out@;
        out.push(e);
        assert(out@.map_values(|e: (String, String)| entry_view(e)) =~= before.map_values(
            |e: (String, String)| entry_view(e),
        ).push(ev));
        assert(want.take(k + 1) =~= want.take(k as int).push(ev));
        assert(start + want.take(k + 1) =~= (start + want.take(k as int)).push(ev));
        k = k + 1;
    }
    assert(want.take(want.len() as int) =~= want);
}

/// The entries the address bar offers for a search, given what the
/// history, the bookmarks and OkuNet found for it.
pub fn search_entries(
    visits: Vec<HistoryRecord>,
    bookmarks: Vec<(String, String)>,
    posts: Vec<(String, String)>,
) -> (r: Vec<(String, String)>)
    ensures
        r@.map_values(|e: (String, String)| entry_view(e)) == search_entries_spec(
            record_views(visits@),
            bookmarks@.map_values(|e: (String, String)| entry_view(e)),
            posts@.map_values(|e: (String, String)| entry_view(e)),
        ),
{
    let mut r: Vec<(String, String)> = Vec::new();
    let ghost vs = record_views(visits@);
    let mut k: usize = 0;
    while k < visits.len()
        invariant
            vs == record_views(visits@),
            k <= visits@.len(),
            r@.map_values(|e: (String, String)| entry_view(e)) == vs.take(k as int).map_values(
                |x: HistoryRecordView| visit_entry(x),
            ),
        decreases visits@.len() - k,
    {
        let title = match &visits[k].title {
            Some(t) => t.clone(),
            None => String::new(),
        };
        let ghost before = r@;
        r.push((title, visits[k].uri.clone()));
        assert(vs[k as int] == visits@[k as int]@);
        assert(r@.map_values(|e: (String, String)| entry_view(e)) =~= before.map_values(
            |e: (String, String)| entry_view(e),
        ).push(visit_entry(vs[k as int])));
        assert(vs.take(k + 1).map_values(|x: HistoryRecordView| visit_entry(x)) =~= vs.take(
            k as int,
        ).map_values(|x: HistoryRecordView| visit_entry(x)).push(visit_entry(vs[k as int])));
        k = k + 1;
    }
    assert(vs.take(visits@.len() as int) =~= vs);
    push_entries(&mut r, bookmarks);
    push_entries(&mut r, posts);
    r
}

/// The address bar's entries for a search hold every visit, then every
/// bookmark, then every post, each group whole and in the order given: a
/// visit's entry is its title (empty if it has none) and where it ended
/// up, and the bookmarks and posts come through as they are.
pub proof fn law_entries_in_order(
    visits: Seq<HistoryRecordView>,
    bookmarks: Seq<(Seq<char>, Seq<char>)>,
    posts: Seq<(Seq<char>, Seq<char>)>,
)
    ensures
        ({
            let e = search_entries_spec(visits, bookmarks, posts);
            &&& e.len() == visits.len() + bookmarks.len() + posts.len()
            &&& forall|i: int|
                0 <= i < visits.len() ==> #[trigger] e[i].1 == visits[i].uri && e[i].0 == match visits[i].title {
                    Some(t) => t,
                    None => Seq::empty(),
                }
            &&& forall|i: int| 0 <= i < bookmarks.len() ==> #[trigger] e[visits.len() + i] == bookmarks[i]
            &&& forall|i: int|
                0 <= i < posts.len() ==> #[trigger] e[visits.len() + bookmarks.len() + i] == posts[i]
        }),
{
    let e = search_entries_spec(visits, bookmarks, posts);
    let vs = visits.map_values(|r: HistoryRecordView| visit_entry(r));
    assert(e == vs + bookmarks + posts);
    assert forall|i: int| 0 <= i < visits.len() implies #[trigger] e[i].1 == visits[i].uri && e[i].0 == match visits[i].title {
        Some(t) => t,
        None => Seq::empty(),
    } by {
        assert(e[i] == vs[i]);
    }
    assert forall|i: int| 0 <= i < bookmarks.len() implies #[trigger] e[visits.len() + i] == bookmarks[i] by {
        assert((vs + bookmarks)[visits.len() + i] == bookmarks[i]);
    }
}

} // verus!
