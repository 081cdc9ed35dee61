use crate::text::{encode_text, escape_text, str_eq};
use vstd::multiset::Multiset;
use vstd::prelude::*;

verus! {

/// A replica of the hive file system as the sidebar lists it.
pub struct ReplicaItem {
    pub(crate) id: String,
    pub(crate) writable: bool,
    pub(crate) home: bool,
}

/// The plain values a replica item holds.
pub struct ReplicaItemView {
    pub id: Seq<char>,
    pub writable: bool,
    pub home: bool,
}

impl View for ReplicaItem {
    type V = ReplicaItemView;

    closed spec fn view(&self) -> ReplicaItemView {
        ReplicaItemView { id: self.id@, writable: self.writable, home: self.home }
    }
}

impl ReplicaItem {
    /// The replica's identifier, as escaped for display.
    pub fn id(&self) -> (r: String)
        ensures
            r@ == self@.id,
    {
        self.id.clone()
    }

    /// Whether this node may write to the replica.
    pub fn writable(&self) -> (r: bool)
        ensures
            r == self@.writable,
    {
        self.writable
    }

    /// Whether the replica is the user's home replica.
    pub fn home(&self) -> (r: bool)
        ensures
            r == self@.home,
    {
        self.home
    }

    /// The home replica the node is to have once this item's home switch is
    /// flipped: none if this replica is the home replica, else this one (by
    /// its identifier as the item holds it).
    pub fn toggled_home(&self) -> (r: Option<String>)
        ensures
            self@.home ==> r is None,
            !self@.home ==> (r matches Some(id) && id@ == self@.id),
    {
        if self.home {
            None
        } else {
            Some(self.id.clone())
        }
    }

    /// A new item; the identifier is stored HTML-escaped.
    pub fn new(id: String, writable: bool, home: bool) -> (r: Self)
        ensures
            r@.id == escape_text(id@),
            r@.writable == writable,
            r@.home == home,
    {
        ReplicaItem { id: encode_text(id.as_str()), writable, home }
    }
}

/// The views of a list of items.
pub open spec fn item_views(v: Seq<ReplicaItem>) -> Seq<ReplicaItemView> {
    v.map_values(|x: ReplicaItem| x@)
}

/// The identifiers that a list of items holds.
pub open spec fn item_ids(v: Seq<ReplicaItemView>) -> Seq<Seq<char>> {
    v.map_values(|x: ReplicaItemView| x.id)
}

/// The replicas a node lists, as plain values: each identifier as text
/// and whether the node may write to it.
pub open spec fn entry_views(rs: Seq<(String, bool)>) -> Seq<(Seq<char>, bool)> {
    rs.map_values(|e: (String, bool)| (e.0@, e.1))
}

/// The position of the first listed replica with identifier `id`.
pub open spec fn position_of(rs: Seq<(Seq<char>, bool)>, id: Seq<char>) -> Option<int>
    decreases rs.len(),
{
    if rs.len() == 0 {
        None
    } else if rs[0].0 == id {
        Some(0)
    } else {
        match position_of(rs.drop_first(), id) {
            Some(p) => Some(p + 1),
            None => None,
        }
    }
}

/// The listed replica that each identifier takes, in order, each taking
/// the first one with its identifier among those not yet taken, and the
/// replicas left over; `None` if an identifier finds none.
pub open spec fn match_replicas(ids: Seq<Seq<char>>, rs: Seq<(Seq<char>, bool)>) -> Option<
    (Seq<(Seq<char>, bool)>, Seq<(Seq<char>, bool)>),
>
    decreases ids.len(),
{
    if ids.len() == 0 {
        Some((Seq::empty(), rs))
    } else {
        match position_of(rs, ids[0]) {
            None => None,
            Some(p) => match match_replicas(ids.drop_first(), rs.remove(p)) {
                None => None,
                Some(m) => Some((seq![rs[p]] + m.0, m.1)),
            },
        }
    }
}

/// The sidebar item of a listed replica, given the node's home replica.
pub open spec fn item_for(e: (Seq<char>, bool), home: Option<Seq<char>>) -> ReplicaItemView {
    ReplicaItemView { id: escape_text(e.0), writable: e.1, home: home == Some(e.0) }
}

/// The sidebar items of a list of replicas.
pub open spec fn items_for(es: Seq<(Seq<char>, bool)>, home: Option<Seq<char>>) -> Seq<
    ReplicaItemView,
> {
    es.map_values(|e: (Seq<char>, bool)| item_for(e, home))
}

/// The ids that every row but the last stands for (none for an empty list).
pub open spec fn front_ids(ids: Seq<Seq<char>>) -> Seq<Seq<char>> {
    if ids.len() == 0 {
        ids
    } else {
        ids.drop_last()
    }
}

/// How the rows of the sidebar take the replicas the node lists `rs`: every
/// row but the last takes the first replica left with its identifier (as
/// `match_replicas` says); the last row takes one too if one is left, and
/// otherwise leaves the list. Gives the replicas the remaining rows took, in
/// order, and those left over; `None` when a row before the last finds no
/// replica.
pub open spec fn rows_update(ids: Seq<Seq<char>>, rs: Seq<(Seq<char>, bool)>) -> Option<
    (Seq<(Seq<char>, bool)>, Seq<(Seq<char>, bool)>),
> {
    if ids.len() == 0 {
        Some((Seq::empty(), rs))
    } else {
        match match_replicas(ids.drop_last(), rs) {
            None => None,
            Some(m) => match position_of(m.1, ids.last()) {
                Some(p) => Some((m.0.push(m.1[p]), m.1.remove(p))),
                None => Some(m),
            },
        }
    }
}

/// The items the sidebar lists after the node listed the replicas `rs`:
/// each row that finds a replica is refreshed from it, a last row that finds
/// none is gone, and the replicas left over follow in the order listed.
pub open spec fn updated_items(
    store: Seq<ReplicaItemView>,
    rs: Seq<(Seq<char>, bool)>,
    home: Option<Seq<char>>,
) -> Seq<ReplicaItemView> {
    let u = rows_update(item_ids(store), rs)->0;
    items_for(u.0 + u.1, home)
}

/// The plain value of an optional text.
pub open spec fn opt_view(o: Option<String>) -> Option<Seq<char>> {
    match o {
        Some(s) => Some(s@),
        None => None,
    }
}

proof fn lemma_position_of(rs: Seq<(Seq<char>, bool)>, id: Seq<char>)
    ensures
        match position_of(rs, id) {
            Some(p) => 0 <= p < rs.len() && rs[p].0 == id && forall|j: int|
                0 <= j < p ==> rs[j].0 != id,
            None => forall|j: int| 0 <= j < rs.len() ==> rs[j].0 != id,
        },
    decreases rs.len(),
{
    if rs.len() > 0 && rs[0].0 != id {
        lemma_position_of(rs.drop_first(), id);
        match position_of(rs.drop_first(), id) {
            Some(p) => {
                assert forall|j: int| 0 <= j < p + 1 implies rs[j].0 != id by {
                    if j > 0 {
                        assert(rs[j] == rs.drop_first()[j - 1]);
                    }
                }
            },
            None => {
                assert forall|j: int| 0 <= j < rs.len() implies rs[j].0 != id by {
                    if j > 0 {
                        assert(rs[j] == rs.drop_first()[j - 1]);
                    }
                }
            },
        }
    }
}

/// The position of the first replica of `rs` with identifier `id`.
fn find_replica(rs: &Vec<(String, bool)>, id: &str) -> (r: Option<usize>)
    ensures
        match r {
            Some(j) => position_of(entry_views(rs@), id@) == Some(j as int),
            None => position_of(entry_views(rs@), id@) is None,
        },
{
    let ghost es = entry_views(rs@);
    proof {
        lemma_position_of(es, id@);
    }
    let mut j: usize = 0;
    while j < rs.len()
        invariant
            es == entry_views(rs@),
            j <= rs@.len(),
            forall|i: int| 0 <= i < j ==> es[i].0 != id@,
            match position_of(es, id@) {
                Some(p) => 0 <= p < es.len() && es[p].0 == id@ && forall|i: int|
                    0 <= i < p ==> es[i].0 != id@,
                None => forall|i: int| 0 <= i < es.len() ==> es[i].0 != id@,
            },
        decreases rs@.len() - j,
    {
        assert(es[j as int] == (rs@[j as int].0@, rs@[j as int].1));
        if str_eq(rs[j].0.as_str(), id) {
            proof {
                match position_of(es, id@) {
                    Some(p) => {
                        if p < j as int {
                            assert(es[p].0 != id@);
                        }
                        if p > j as int {
                            assert(es[j as int].0 != id@);
                        }
                    },
                    None => {
                        assert(es[j as int].0 != id@);
                    },
                }
            }
            return Some(j);
        }
        j = j + 1;
    }
    proof {
        match position_of(es, id@) {
            Some(p) => {
                assert(es[p].0 != id@);
            },
            None => {},
        }
    }
    None
}

/// Whether the node's home replica is the one with identifier `id`.
fn is_home(home: &Option<String>, id: &str) -> (r: bool)
    ensures
        r == (opt_view(*home) == Some(id@)),
{
    match home {
        Some(h) => str_eq(h.as_str(), id),
        None => false,
    }
}

proof fn lemma_entry_views_remove(v: Seq<(String, bool)>, j: int)
    requires
        0 <= j < v.len(),
    ensures
        entry_views(v.remove(j)) == entry_views(v).remove(j),
{
    v.remove_ensures(j);
    entry_views(v).remove_ensures(j);
    assert(entry_views(v.remove(j)) =~= entry_views(v).remove(j));
}

/// Whether `replicas_updated` can bring the store up to date: each row but
/// the last finds a replica of `replicas` with its identifier.
pub fn replicas_match(store: &Vec<ReplicaItem>, replicas: &Vec<(String, bool)>) -> (r: bool)
    ensures
        r == rows_update(item_ids(item_views(store@)), entry_views(replicas@)) is Some,
{
    let ghost all_ids = item_ids(item_views(store@));
    let ghost ids = front_ids(all_ids);
    let mut rem: Vec<(String, bool)> = Vec::new();
    let mut i: usize = 0;
    while i < replicas.len()
        invariant
            i <= replicas@.len(),
            entry_views(rem@) == entry_views(replicas@).take(i as int),
        decreases replicas@.len() - i,
    {
        let ghost before = rem@;
        rem.push((replicas[i].0.clone(), replicas[i].1));
        assert(entry_views(rem@) =~= entry_views(before).push(entry_views(replicas@)[i as int]));
        assert(entry_views(replicas@).take(i + 1) =~= entry_views(replicas@).take(i as int).push(
            entry_views(replicas@)[i as int],
        ));
        i = i + 1;
    }
    assert(entry_views(replicas@).take(replicas@.len() as int) =~= entry_views(replicas@));
    assert(ids.skip(0) =~= ids);
    let n = store.len();
    let front = if n == 0 {
        0
    } else {
        n - 1
    };
    assert(ids.len() == front);
    let mut k: usize = 0;
    while k < front
        invariant
            n == store@.len(),
            front == ids.len(),
            front <= n,
            all_ids == item_ids(item_views(store@)),
            ids == front_ids(all_ids),
            k <= front,
            (match_replicas(ids, entry_views(replicas@)) is Some) == (match_replicas(
                ids.skip(k as int),
                entry_views(rem@),
            ) is Some),
        decreases front - k,
    {
        let ghost es = entry_views(rem@);
        let ghost before = rem@;
        assert(ids[k as int] == all_ids[k as int]);
        assert(ids.skip(k as int)[0] == store@[k as int]@.id);
        assert(ids.skip(k as int).drop_first() =~= ids.skip(k + 1));
        proof {
            lemma_position_of(es, ids[k as int]);
        }
        match find_replica(&rem, store[k].id.as_str()) {
            Some(j) => {
                let _ = rem.remove(j);
                proof {
                    lemma_entry_views_remove(before, j as int);
                }
            },
            None => {
                return false;
            },
        }
        k = k + 1;
    }
    assert(ids.skip(front as int).len() == 0);
    true
}

/// Brings the sidebar's list of replicas up to date with the replicas the
/// node lists (`home` is the node's home replica, if it has one): each row is
/// refreshed from the first listed replica with its identifier that no
/// earlier row took; a last row that finds none leaves the list; the
/// replicas that no row took are appended in the order listed. The rows
/// are walked by the positions they had before the update, so a row that
/// left before the last would leave that walk reading past the end of the
/// list: every row but the last must find a replica (see `replicas_match`).
pub fn replicas_updated(
    store: &mut Vec<ReplicaItem>,
    replicas: Vec<(String, bool)>,
    home: Option<String>,
)
    requires
        rows_update(item_ids(item_views(old(store)@)), entry_views(replicas@)) is Some,
    ensures
        item_views(final(store)@) == updated_items(
            item_views(old(store)@),
            entry_views(replicas@),
            opt_view(home),
        ),
{
    let ghost store0 = item_views(store@);
    let ghost all_ids = item_ids(store0);
    let ghost ids = front_ids(all_ids);
    let ghost rs0 = entry_views(replicas@);
    let ghost hv = opt_view(home);
    let ghost mut done: Seq<(Seq<char>, bool)> = Seq::empty();
    let mut rem = replicas;
    let n = store.len();
    let front = if n == 0 {
        0
    } else {
        n - 1
    };
    proof {
        assert(ids.len() == front);
        assert(ids.skip(0) =~= ids);
        let m = match_replicas(ids, rs0)->0;
        assert(done + m.0 =~= m.0);
        assert(item_views(store@).take(0) =~= items_for(done, hv));
    }
    let mut k: usize = 0;
    while k < front
        invariant
            store@.len() == n,
            store0.len() == n,
            front == ids.len(),
            front <= n,
            all_ids == item_ids(store0),
            ids == front_ids(all_ids),
            hv == opt_view(home),
            k <= front,
            forall|i: int| k <= i < n ==> #[trigger] store@[i]@ == store0[i],
            item_views(store@).take(k as int) == items_for(done, hv),
            match match_replicas(ids.skip(k as int), entry_views(rem@)) {
                Some(m) => match_replicas(ids, rs0) == Some((done + m.0, m.1)),
                None => false,
            },
        decreases front - k,
    {
        let ghost es = entry_views(rem@);
        let ghost rem0 = rem@;
        let ghost m = match_replicas(ids.skip(k as int), es)->0;
        assert(ids[k as int] == all_ids[k as int]);
        assert(ids.skip(k as int)[0] == store0[k as int].id);
        assert(store@[k as int]@ == store0[k as int]);
        assert(ids.skip(k as int).drop_first() =~= ids.skip(k + 1));
        proof {
            lemma_position_of(es, ids[k as int]);
        }
        let found = find_replica(&rem, store[k].id.as_str());
        let j = match found {
            Some(j) => j,
            None => {
                proof {
                    assert(false);
                }
                0
            },
        };
        let ghost p = j as int;
        let ghost m2 = match_replicas(ids.skip(k + 1), es.remove(p))->0;
        let entry = rem.remove(j);
        proof {
            lemma_entry_views_remove(rem0, p);
            assert(es[p] == (rem0[p].0@, rem0[p].1));
        }
        let home_here = is_home(&home, entry.0.as_str());
        let item = ReplicaItem::new(entry.0, entry.1, home_here);
        let ghost before = item_views(store@);
        let ghost new_item = item@;
        store.set(k, item);
        proof {
            assert(new_item == item_for(es[p], hv));
            assert(m == (seq![es[p]] + m2.0, m2.1));
            assert(done.push(es[p]) + m2.0 =~= done + (seq![es[p]] + m2.0));
            assert(item_views(store@) =~= before.update(k as int, new_item));
            assert(items_for(done.push(es[p]), hv) =~= items_for(done, hv).push(new_item));
            assert(before.take(k as int) == items_for(done, hv));
            assert(item_views(store@).take(k + 1) =~= before.take(k as int).push(new_item));
            done = done.push(es[p]);
            assert forall|i: int| k + 1 <= i < n implies #[trigger] store@[i]@ == store0[i] by {
                assert(item_views(store@)[i] == before[i]);
            }
        }
        k = k + 1;
    }
    proof {
        assert(ids.skip(front as int).len() == 0);
        assert(match_replicas(ids, rs0) == Some((done, entry_views(rem@))));
    }
    if n > 0 {
        let ghost es = entry_views(rem@);
        let ghost rem0 = rem@;
        let ghost before = item_views(store@);
        assert(store@[front as int]@ == store0[front as int]);
        assert(all_ids.last() == store0[front as int].id);
        assert(before.take(front as int) == items_for(done, hv));
        proof {
            lemma_position_of(es, all_ids.last());
        }
        match find_replica(&rem, store[front].id.as_str()) {
            Some(j) => {
                let entry = rem.remove(j);
                proof {
                    lemma_entry_views_remove(rem0, j as int);
                    assert(es[j as int] == (rem0[j as int].0@, rem0[j as int].1));
                }
                let home_here = is_home(&home, entry.0.as_str());
                let item = ReplicaItem::new(entry.0, entry.1, home_here);
                let ghost new_item = item@;
                store.set(front, item);
                proof {
                    assert(new_item == item_for(es[j as int], hv));
                    assert(item_views(store@) =~= before.take(front as int).push(new_item));
                    assert(items_for(done.push(es[j as int]), hv) =~= items_for(done, hv).push(
                        new_item,
                    ));
                    done = done.push(es[j as int]);
                }
            },
            None => {
                let _ = store.pop();
                proof {
                    assert(item_views(store@) =~= before.take(front as int));
                }
            },
        }
    } else {
        proof {
            assert(item_views(store@) =~= items_for(done, hv));
        }
    }
    proof {
        assert(rows_update(all_ids, rs0) == Some((done, entry_views(rem@))));
        assert(item_views(store@) == items_for(done, hv));
    }
    let ghost rest = entry_views(rem@);
    proof {
        assert(done + rest.take(0) =~= done);
    }
    let mut i: usize = 0;
    while i < rem.len()
        invariant
            rest == entry_views(rem@),
            hv == opt_view(home),
            i <= rem@.len(),
            item_views(store@) == items_for(done + rest.take(i as int), hv),
        decreases rem@.len() - i,
    {
        let ghost before = item_views(store@);
        let home_here = is_home(&home, rem[i].0.as_str());
        let item = ReplicaItem::new(rem[i].0.clone(), rem[i].1, home_here);
        let ghost new_item = item@;
        store.push(item);
        proof {
            assert(rest[i as int] == (rem@[i as int].0@, rem@[i as int].1));
            assert(new_item == item_for(rest[i as int], hv));
            assert(done + rest.take(i + 1) =~= (done + rest.take(i as int)).push(rest[i as int]));
            assert(item_views(store@) =~= before.push(new_item));
            assert(items_for((done + rest.take(i as int)).push(rest[i as int]), hv) =~= items_for(
                done + rest.take(i as int),
                hv,
            ).push(new_item));
        }
        i = i + 1;
    }
    assert(rest.take(rem@.len() as int) =~= rest);
}

/// When every identifier finds a replica, each takes one with its own
/// identifier, and those taken together with those left over are exactly
/// the replicas listed.
proof fn lemma_match_replicas(ids: Seq<Seq<char>>, rs: Seq<(Seq<char>, bool)>)
    requires
        match_replicas(ids, rs) is Some,
    ensures
        ({
            let m = match_replicas(ids, rs)->0;
            &&& m.0.len() == ids.len()
            &&& forall|i: int| 0 <= i < ids.len() ==> #[trigger] m.0[i].0 == ids[i]
            &&& (m.0 + m.1).to_multiset() == rs.to_multiset()
        }),
    decreases ids.len(),
{
    broadcast use vstd::seq_lib::group_to_multiset_ensures;

    if ids.len() > 0 {
        lemma_position_of(rs, ids[0]);
        let p = position_of(rs, ids[0])->0;
        let m2 = match_replicas(ids.drop_first(), rs.remove(p))->0;
        lemma_match_replicas(ids.drop_first(), rs.remove(p));
        let m = match_replicas(ids, rs)->0;
        assert(m == (seq![rs[p]] + m2.0, m2.1));
        assert forall|i: int| 0 <= i < ids.len() implies #[trigger] m.0[i].0 == ids[i] by {
            if i > 0 {
                assert(m.0[i] == m2.0[i - 1]);
                assert(ids.drop_first()[i - 1] == ids[i]);
            }
        }
        assert(m.0 + m.1 =~= seq![rs[p]] + (m2.0 + m2.1));
        vstd::seq_lib::lemma_multiset_commutative(seq![rs[p]], m2.0 + m2.1);
        vstd::seq_lib::to_multiset_remove(rs, p);
        assert(seq![rs[p]].to_multiset() =~= Multiset::empty().insert(rs[p])) by {
            vstd::seq_lib::to_multiset_build(Seq::<(Seq<char>, bool)>::empty(), rs[p]);
            assert(Seq::<(Seq<char>, bool)>::empty().push(rs[p]) =~= seq![rs[p]]);
        }
        assert(rs.to_multiset().contains(rs[p]));
        assert((m.0 + m.1).to_multiset() =~= rs.to_multiset());
    }
}

/// Whenever `replicas_updated` can run, each remaining row holds a replica
/// with the identifier the row had, at most the last row is gone, and the
/// rows together with the replicas appended after them are exactly the
/// replicas listed: after `replicas_updated` the sidebar lists each replica
/// of the node once.
pub proof fn law_replicas_listed_once(ids: Seq<Seq<char>>, rs: Seq<(Seq<char>, bool)>)
    requires
        rows_update(ids, rs) is Some,
    ensures
        ({
            let u = rows_update(ids, rs)->0;
            &&& u.0.len() <= ids.len() <= u.0.len() + 1
            &&& forall|i: int| 0 <= i < u.0.len() ==> #[trigger] u.0[i].0 == ids[i]
            &&& (u.0 + u.1).to_multiset() == rs.to_multiset()
        }),
{
    broadcast use vstd::seq_lib::group_to_multiset_ensures;

    if ids.len() > 0 {
        let front = ids.drop_last();
        lemma_match_replicas(front, rs);
        let m = match_replicas(front, rs)->0;
        lemma_position_of(m.1, ids.last());
        let u = rows_update(ids, rs)->0;
        assert forall|i: int| 0 <= i < m.0.len() implies #[trigger] m.0[i].0 == ids[i] by {
            assert(front[i] == ids[i]);
        }
        match position_of(m.1, ids.last()) {
            Some(p) => {
                let x = m.1[p];
                assert(u == (m.0.push(x), m.1.remove(p)));
                vstd::seq_lib::lemma_multiset_commutative(m.0, m.1);
                vstd::seq_lib::lemma_multiset_commutative(m.0.push(x), m.1.remove(p));
                vstd::seq_lib::to_multiset_build(m.0, x);
                vstd::seq_lib::to_multiset_remove(m.1, p);
                assert(m.1.to_multiset().contains(x));
                assert((u.0 + u.1).to_multiset() =~= rs.to_multiset());
            },
            None => {
                assert(u == m);
            },
        }
    }
}

} // verus!
