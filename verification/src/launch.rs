use crate::order::{
    lemma_text_lt_asymmetric, lemma_text_lt_irreflexive, lemma_text_lt_total,
    lemma_text_lt_transitive, str_lt, strictly_sorted, text_lt,
};
use crate::text::str_eq;
use vstd::prelude::*;

verus! {

/// The index of the first `,` of a text, if it has one.
pub open spec fn first_comma(s: Seq<char>) -> Option<int> {
    if exists|i: int| 0 <= i < s.len() && s[i] == ',' {
        Some(choose|i: int| 0 <= i < s.len() && s[i] == ',' && forall|j: int| 0 <= j < i ==> s[j] != ',')
    } else {
        None
    }
}

/// How a window is to be opened, from the hint that travels with an open
/// request: whether it is private, and whether the request came without
/// addresses. The hint is two flags separated by the first `,`; each
/// flag is on only if it reads `true`. A hint without `,` means a window
/// that is not private, for a request without addresses.
pub open spec fn open_hint_spec(hint: Seq<char>) -> (bool, bool) {
    match first_comma(hint) {
        Some(i) => (hint.take(i) == "true"@, hint.skip(i + 1) == "true"@),
        None => (false, true),
    }
}

/// Reads the hint of an open request: `(is_private, no_arguments)`.
pub fn parse_open_hint(hint: &str) -> (r: (bool, bool))
    ensures
        r == open_hint_spec(hint@),
{
    let n = hint.unicode_len();
    let mut i: usize = 0;
    while i < n && hint.get_char(i) != ','
        invariant
            n == hint@.len(),
            i <= n,
            forall|j: int| 0 <= j < i ==> hint@[j] != ',',
        decreases n - i,
    {
        i = i + 1;
    }
    if i == n {
        assert(!exists|k: int| 0 <= k < hint@.len() && hint@[k] == ',');
        (false, true)
    } else {
        let ghost w = choose|k: int|
            0 <= k < hint@.len() && hint@[k] == ',' && forall|j: int| 0 <= j < k ==> hint@[j] != ',';
        assert(hint@[i as int] == ',');
        assert(w == i) by {
            if w < i {
                assert(hint@[w] != ',');
            }
            if w > i {
                assert(hint@[i as int] != ',');
            }
        }
        let left = hint.substring_char(0, i);
        let right = hint.substring_char(i + 1, n);
        assert(hint@.subrange(0, i as int) =~= hint@.take(i as int));
        assert(hint@.subrange(i + 1, n as int) =~= hint@.skip(i + 1));
        (str_eq(left, "true"), str_eq(right, "true"))
    }
}

/// The text of a flag in an open hint.
pub open spec fn flag_text(b: bool) -> Seq<char> {
    if b {
        "true"@
    } else {
        "false"@
    }
}

/// The hint that asks for a window: private or not, for a request with or
/// without addresses.
pub open spec fn hint_text(is_private: bool, no_arguments: bool) -> Seq<char> {
    flag_text(is_private) + ","@ + flag_text(no_arguments)
}

/// The hint of an open request.
pub fn open_hint(is_private: bool, no_arguments: bool) -> (r: String)
    ensures
        r@ == hint_text(is_private, no_arguments),
{
    let mut r = String::from_str(if is_private { "true" } else { "false" });
    r.append(",");
    r.append(if no_arguments { "true" } else { "false" });
    r
}

/// A request to open a window: the address it opens, if any, and its hint.
pub struct OpenRequest {
    pub uri: Option<String>,
    pub hint: String,
}

/// The open requests that the command-line options ask for: a window for
/// the address of `--new-window`, a private window for that of
/// `--new-private-window`, and, when neither is given, a window without
/// addresses.
pub fn launch_requests(new_window: Option<String>, new_private_window: Option<String>) -> (r: Vec<
    OpenRequest,
>)
    ensures
        new_window is None && new_private_window is None ==> r@.len() == 1 && r@[0].uri is None
            && r@[0].hint@ == hint_text(false, true),
        !(new_window is None && new_private_window is None) ==> r@.len() == (if new_window is Some {
            1int
        } else {
            0int
        }) + (if new_private_window is Some {
            1int
        } else {
            0int
        }),
        new_window matches Some(u) ==> r@[0].uri == Some(u) && r@[0].hint@ == hint_text(
            false,
            false,
        ),
        new_private_window matches Some(u) ==> r@[r@.len() - 1].uri == Some(u)
            && r@[r@.len() - 1].hint@ == hint_text(true, false),
{
    let mut r: Vec<OpenRequest> = Vec::new();
    if new_window.is_none() && new_private_window.is_none() {
        r.push(OpenRequest { uri: None, hint: open_hint(false, true) });
        return r;
    }
    if let Some(u) = new_window {
        r.push(OpenRequest { uri: Some(u), hint: open_hint(false, false) });
    }
    if let Some(u) = new_private_window {
        r.push(OpenRequest { uri: Some(u), hint: open_hint(true, false) });
    }
    r
}

/// A window opens as its open request asks: reading back the hint that
/// asks for a window gives what was asked.
pub proof fn law_open_hint_round_trip(is_private: bool, no_arguments: bool)
    ensures
        open_hint_spec(hint_text(is_private, no_arguments)) == (is_private, no_arguments),
{
    reveal_strlit("true");
    reveal_strlit("false");
    reveal_strlit(",");
    let h = hint_text(is_private, no_arguments);
    let a = flag_text(is_private);
    let b = flag_text(no_arguments);
    let i = a.len() as int;
    assert(h[i] == ',');
    assert forall|j: int| 0 <= j < i implies h[j] != ',' by {
        assert(h[j] == a[j]);
    }
    let w = choose|k: int| 0 <= k < h.len() && h[k] == ',' && forall|j: int| 0 <= j < k ==> h[j] != ',';
    assert(w == i) by {
        if w < i {
            assert(h[w] != ',');
        }
        if w > i {
            assert(h[i] != ',');
        }
    }
    assert(h.take(i) =~= a);
    assert(h.skip(i + 1) =~= b);
    assert(("false"@ == "true"@) == false) by {
        assert("false"@.len() != "true"@.len());
    }
}

/// The texts of a list of strings.
pub open spec fn texts(v: Seq<String>) -> Seq<Seq<char>> {
    v.map_values(|s: String| s@)
}

/// The addresses of an open request in increasing order, each once.
pub fn unique_sorted(uris: Vec<String>) -> (r: Vec<String>)
    ensures
        strictly_sorted(texts(r@)),
        forall|u: Seq<char>| #[trigger] texts(r@).contains(u) <==> texts(uris@).contains(u),
{
    let mut r: Vec<String> = Vec::new();
    let mut k: usize = 0;
    while k < uris.len()
        invariant
            k <= uris@.len(),
            strictly_sorted(texts(r@)),
            forall|u: Seq<char>| #[trigger]
                texts(r@).contains(u) <==> texts(uris@.take(k as int)).contains(u),
        decreases uris@.len() - k,
    {
        let u = &uris[k];
        let ghost rs = texts(r@);
        let mut p: usize = 0;
        while p < r.len() && str_lt(r[p].as_str(), u.as_str())
            invariant
                p <= r@.len(),
                rs == texts(r@),
                forall|i: int| 0 <= i < p ==> text_lt(#[trigger] rs[i], u@),
            decreases r@.len() - p,
        {
            p = p + 1;
        }
        assert(uris@.take(k + 1) =~= uris@.take(k as int).push(uris@[k as int]));
        assert(texts(uris@.take(k + 1)) =~= texts(uris@.take(k as int)).push(u@));
        if p < r.len() && str_eq(r[p].as_str(), u.as_str()) {
            assert(rs[p as int] == u@);
            assert forall|x: Seq<char>| #[trigger]
                texts(r@).contains(x) <==> texts(uris@.take(k + 1)).contains(x) by {
                let tk0 = texts(uris@.take(k as int));
                let tk = texts(uris@.take(k + 1));
                assert(tk == tk0.push(u@));
                if x == u@ {
                    assert(rs[p as int] == x);
                    assert(tk[tk0.len() as int] == x);
                }
                if tk0.contains(x) {
                    let j = choose|j: int| 0 <= j < tk0.len() && tk0[j] == x;
                    assert(tk[j] == x);
                }
                if tk.contains(x) {
                    let j = choose|j: int| 0 <= j < tk.len() && tk[j] == x;
                    if j < tk0.len() {
                        assert(tk0[j] == x);
                    }
                }
            }
        } else {
            let ghost old_r = r@;
            r.insert(p, u.clone());
            proof {
                assert(texts(r@) =~= rs.insert(p as int, u@));
                if p < rs.len() {
                    lemma_text_lt_total(u@, rs[p as int]);
                    lemma_text_lt_asymmetric(u@, rs[p as int]);
                }
                assert forall|i: int, j: int|
                    0 <= i < j < texts(r@).len() implies text_lt(
                    #[trigger] texts(r@)[i],
                    #[trigger] texts(r@)[j],
                ) by {
                    let t = texts(r@);
                    if j < p {
                        assert(t[i] == rs[i] && t[j] == rs[j]);
                    } else if j == p {
                        assert(t[i] == rs[i]);
                    } else if i > p {
                        assert(t[i] == rs[i - 1] && t[j] == rs[j - 1]);
                    } else if i == p {
                        assert(t[j] == rs[j - 1]);
                        if j - 1 > p {
                            lemma_text_lt_transitive(u@, rs[p as int], rs[j - 1]);
                        }
                    } else {
                        assert(t[i] == rs[i]);
                        assert(t[j] == rs[j - 1]);
                        assert(text_lt(rs[i], u@));
                        if j - 1 > p {
                            lemma_text_lt_transitive(u@, rs[p as int], rs[j - 1]);
                        }
                        lemma_text_lt_transitive(rs[i], u@, rs[j - 1]);
                    }
                }
                assert forall|x: Seq<char>| #[trigger]
                    texts(r@).contains(x) <==> texts(uris@.take(k + 1)).contains(x) by {
                    let t = texts(r@);
                    let tk0 = texts(uris@.take(k as int));
                    let tk = texts(uris@.take(k + 1));
                    assert(tk == tk0.push(u@));
                    if x == u@ {
                        assert(t[p as int] == x);
                        assert(tk[tk0.len() as int] == x);
                    }
                    if t.contains(x) && x != u@ {
                        let j = choose|j: int| 0 <= j < t.len() && t[j] == x;
                        if j < p {
                            assert(rs[j] == x);
                        } else {
                            assert(rs[j - 1] == x);
                        }
                        assert(rs.contains(x));
                        assert(tk0.contains(x));
                        let m = choose|m: int| 0 <= m < tk0.len() && tk0[m] == x;
                        assert(tk[m] == x);
                    }
                    if tk.contains(x) && x != u@ {
                        let j = choose|j: int| 0 <= j < tk.len() && tk[j] == x;
                        assert(j < tk0.len());
                        assert(tk0[j] == x);
                        assert(tk0.contains(x));
                        assert(rs.contains(x));
                        let m = choose|m: int| 0 <= m < rs.len() && rs[m] == x;
                        if m < p {
                            assert(t[m] == x);
                        } else {
                            assert(t[m + 1] == x);
                        }
                    }
                }
            }
        }
        k = k + 1;
    }
    assert(uris@.take(uris@.len() as int) =~= uris@);
    r
}

/// A window opens the same pages whatever the order of the addresses it is
/// asked to open and however often each is repeated: two lists in strictly
/// increasing order with the same addresses are the same list, so
/// `unique_sorted` gives the same result for any two requests that name the
/// same addresses.
pub proof fn law_open_order_depends_only_on_addresses(a: Seq<Seq<char>>, b: Seq<Seq<char>>)
    requires
        strictly_sorted(a),
        strictly_sorted(b),
        forall|u: Seq<char>| #[trigger] a.contains(u) <==> b.contains(u),
    ensures
        a == b,
    decreases a.len(),
{
    if a.len() == 0 {
        if b.len() > 0 {
            assert(b.contains(b[0]));
            assert(!a.contains(b[0]));
        }
        assert(a =~= b);
    } else if b.len() == 0 {
        assert(a.contains(a[0]));
        assert(!b.contains(a[0]));
    } else {
        assert(a.contains(a[0]));
        assert(b.contains(b[0]));
        assert(a.contains(b[0]));
        assert(b.contains(a[0]));
        let i = choose|i: int| 0 <= i < a.len() && a[i] == b[0];
        let j = choose|j: int| 0 <= j < b.len() && b[j] == a[0];
        if i > 0 && j > 0 {
            assert(text_lt(a[0], a[i]));
            assert(text_lt(b[0], b[j]));
            lemma_text_lt_asymmetric(a[0], b[0]);
        }
        assert(a[0] == b[0]);
        let a1 = a.drop_first();
        let b1 = b.drop_first();
        assert forall|u: Seq<char>| #[trigger] a1.contains(u) <==> b1.contains(u) by {
            if a1.contains(u) {
                let k = choose|k: int| 0 <= k < a1.len() && a1[k] == u;
                assert(a[k + 1] == u);
                assert(text_lt(a[0], a[k + 1]));
                lemma_text_lt_irreflexive(u);
                assert(a.contains(u));
                assert(b.contains(u));
                let m = choose|m: int| 0 <= m < b.len() && b[m] == u;
                assert(m != 0);
                assert(b1[m - 1] == u);
            }
            if b1.contains(u) {
                let k = choose|k: int| 0 <= k < b1.len() && b1[k] == u;
                assert(b[k + 1] == u);
                assert(text_lt(b[0], b[k + 1]));
                lemma_text_lt_irreflexive(u);
                assert(b.contains(u));
                assert(a.contains(u));
                let m = choose|m: int| 0 <= m < a.len() && a[m] == u;
                assert(m != 0);
                assert(a1[m - 1] == u);
            }
        }
        assert(strictly_sorted(a1)) by {
            assert forall|x: int, y: int| 0 <= x < y < a1.len() implies text_lt(
                #[trigger] a1[x],
                #[trigger] a1[y],
            ) by {
                assert(a1[x] == a[x + 1] && a1[y] == a[y + 1]);
            }
        }
        assert(strictly_sorted(b1)) by {
            assert forall|x: int, y: int| 0 <= x < y < b1.len() implies text_lt(
                #[trigger] b1[x],
                #[trigger] b1[y],
            ) by {
                assert(b1[x] == b[x + 1] && b1[y] == b[y + 1]);
            }
        }
        law_open_order_depends_only_on_addresses(a1, b1);
        assert(a =~= seq![a[0]] + a1);
        assert(b =~= seq![b[0]] + b1);
    }
}

} // verus!
