use crate::text::{chars_of, push_char};
use vstd::prelude::*;

verus! {

/// The pieces of a text between its `/` separators, empty ones included;
/// a text without separators is a single piece.
pub open spec fn split_pieces(s: Seq<char>) -> Seq<Seq<char>>
    decreases s.len(),
{
    if s.len() == 0 {
        seq![Seq::empty()]
    } else {
        let p = split_pieces(s.drop_last());
        if s.last() == '/' {
            p.push(Seq::empty())
        } else {
            p.update(p.len() - 1, p.last().push(s.last()))
        }
    }
}

/// A piece that names a path component of its own: neither empty (a
/// repeated or trailing separator) nor `.`.
pub open spec fn is_kept_piece(p: Seq<char>) -> bool {
    p.len() > 0 && p != seq!['.']
}

/// The kept pieces, in order.
pub open spec fn kept_pieces(ps: Seq<Seq<char>>) -> Seq<Seq<char>>
    decreases ps.len(),
{
    if ps.len() == 0 {
        Seq::empty()
    } else {
        let r = kept_pieces(ps.drop_last());
        if is_kept_piece(ps.last()) {
            r.push(ps.last())
        } else {
            r
        }
    }
}

/// Whether the path is absolute.
pub open spec fn has_root(s: Seq<char>) -> bool {
    s.len() > 0 && s[0] == '/'
}

/// Whether a relative path starts with a `.` component of its own.
pub open spec fn starts_with_cur_dir(s: Seq<char>) -> bool {
    !has_root(s) && s.len() > 0 && s[0] == '.' && (s.len() == 1 || s[1] == '/')
}

/// The components of a Unix path, each as the text it stands for: `/` for
/// the root, `.` for a leading current directory, then every piece that
/// is neither empty nor `.`.
pub open spec fn path_components(s: Seq<char>) -> Seq<Seq<char>> {
    let lead: Seq<Seq<char>> = if has_root(s) {
        seq![seq!['/']]
    } else if starts_with_cur_dir(s) {
        seq![seq!['.']]
    } else {
        Seq::empty()
    };
    lead + kept_pieces(split_pieces(s))
}

/// Pieces joined back together with `/` between them.
pub open spec fn join_pieces(ps: Seq<Seq<char>>) -> Seq<char>
    decreases ps.len(),
{
    if ps.len() == 0 {
        Seq::empty()
    } else if ps.len() == 1 {
        ps[0]
    } else {
        join_pieces(ps.drop_last()) + seq!['/'] + ps.last()
    }
}

/// The first index at or after `from` of a kept piece, or `ps.len()`.
pub open spec fn first_kept_from(ps: Seq<Seq<char>>, from: int) -> int
    decreases ps.len() - from,
{
    if from >= ps.len() {
        ps.len() as int
    } else if is_kept_piece(ps[from]) {
        from
    } else {
        first_kept_from(ps, from + 1)
    }
}

/// One past the last index below `to` of a kept piece, or `lo` if no piece
/// in `lo..to` is kept.
pub open spec fn last_kept_end(ps: Seq<Seq<char>>, lo: int, to: int) -> int
    decreases to - lo,
{
    if to <= lo {
        lo
    } else if is_kept_piece(ps[to - 1]) {
        to
    } else {
        last_kept_end(ps, lo, to - 1)
    }
}

/// What remains of a path once its first component is taken away, as
/// the text a relative path holds: the pieces after the first one, from
/// the first kept piece to the last kept piece, joined with `/`. Empty and
/// `.` pieces at either end fall away; those between kept pieces stay.
pub open spec fn path_rest(s: Seq<char>) -> Seq<char> {
    let ps = split_pieces(s);
    let a = first_kept_from(ps, 1);
    let b = last_kept_end(ps, a, ps.len() as int);
    join_pieces(ps.subrange(a, b))
}

proof fn lemma_split_pieces_nonempty(s: Seq<char>)
    ensures
        split_pieces(s).len() >= 1,
    decreases s.len(),
{
    if s.len() > 0 {
        lemma_split_pieces_nonempty(s.drop_last());
    }
}

proof fn lemma_first_kept_bounds(ps: Seq<Seq<char>>, from: int)
    requires
        0 <= from,
    ensures
        from <= first_kept_from(ps, from) || (from > ps.len() && first_kept_from(ps, from)
            == ps.len()),
        first_kept_from(ps, from) <= ps.len() || from > ps.len(),
        first_kept_from(ps, from) < ps.len() ==> is_kept_piece(
            ps[first_kept_from(ps, from)],
        ),
        forall|j: int| from <= j < first_kept_from(ps, from) ==> !is_kept_piece(ps[j]),
    decreases ps.len() - from,
{
    if from < ps.len() && !is_kept_piece(ps[from]) {
        lemma_first_kept_bounds(ps, from + 1);
    }
}

proof fn lemma_last_kept_bounds(ps: Seq<Seq<char>>, lo: int, to: int)
    requires
        0 <= lo,
        to <= ps.len(),
    ensures
        lo <= last_kept_end(ps, lo, to),
        to >= lo ==> last_kept_end(ps, lo, to) <= to,
        last_kept_end(ps, lo, to) > lo ==> is_kept_piece(ps[last_kept_end(ps, lo, to) - 1]),
        forall|j: int|
            last_kept_end(ps, lo, to) <= j < to && lo <= j ==> !is_kept_piece(ps[j]),
    decreases to - lo,
{
    if to > lo && !is_kept_piece(ps[to - 1]) {
        lemma_last_kept_bounds(ps, lo, to - 1);
    }
}

/// The pieces of `s` between its separators, as `split_pieces` describes.
pub fn split_path_pieces(s: &str) -> (r: Vec<String>)
    ensures
        r@.len() == split_pieces(s@).len(),
        forall|i: int| 0 <= i < r@.len() ==> #[trigger] r@[i]@ == split_pieces(s@)[i],
{
    let cs = chars_of(s);
    let n = cs.len();
    let mut done: Vec<String> = Vec::new();
    let mut current = String::new();
    let mut i: usize = 0;
    while i < n
        invariant
            n == cs@.len(),
            cs@ == s@,
            i <= n,
            done@.len() + 1 == split_pieces(cs@.take(i as int)).len(),
            forall|k: int|
                0 <= k < done@.len() ==> #[trigger] done@[k]@ == split_pieces(cs@.take(i as int))[k],
            current@ == split_pieces(cs@.take(i as int)).last(),
        decreases n - i,
    {
        let c = cs[i];
        let ghost before = split_pieces(cs@.take(i as int));
        assert(cs@.take(i + 1).drop_last() =~= cs@.take(i as int));
        proof {
            lemma_split_pieces_nonempty(cs@.take(i as int));
        }
        if c == '/' {
            done.push(current);
            current = String::new();
        } else {
            push_char(&mut current, c);
        }
        i = i + 1;
    }
    assert(cs@.take(n as int) =~= s@);
    done.push(current);
    done
}

/// Whether a piece is kept as a component of its own.
fn kept(p: &String) -> (r: bool)
    ensures
        r == is_kept_piece(p@),
{
    let cs = chars_of(p.as_str());
    if cs.len() == 0 {
        false
    } else if cs.len() == 1 && cs[0] == '.' {
        assert(p@ =~= seq!['.']);
        false
    } else {
        if cs.len() == 1 {
            assert(p@ != seq!['.']) by {
                assert(p@[0] != seq!['.'][0]);
            }
        } else {
            assert(p@.len() != seq!['.'].len());
        }
        true
    }
}

/// The components of the Unix path `s`, as `path_components` describes.
pub fn components(s: &str) -> (r: Vec<String>)
    ensures
        r@.len() == path_components(s@).len(),
        forall|i: int| 0 <= i < r@.len() ==> #[trigger] r@[i]@ == path_components(s@)[i],
{
    let pieces = split_path_pieces(s);
    let cs = chars_of(s);
    let mut r: Vec<String> = Vec::new();
    let ghost lead: Seq<Seq<char>>;
    if cs.len() > 0 && cs[0] == '/' {
        let mut root = String::new();
        push_char(&mut root, '/');
        r.push(root);
        proof {
            lead = seq![seq!['/']];
        }
    } else if cs.len() > 0 && cs[0] == '.' && (cs.len() == 1 || cs[1] == '/') {
        let mut cur = String::new();
        push_char(&mut cur, '.');
        r.push(cur);
        proof {
            lead = seq![seq!['.']];
        }
    } else {
        proof {
            lead = Seq::empty();
        }
    }
    assert(path_components(s@) == lead + kept_pieces(split_pieces(s@)));
    let ghost ps = split_pieces(s@);
    let ghost lead_len = lead.len();
    let mut k: usize = 0;
    while k < pieces.len()
        invariant
            pieces@.len() == ps.len(),
            forall|i: int| 0 <= i < pieces@.len() ==> #[trigger] pieces@[i]@ == ps[i],
            k <= pieces@.len(),
            r@.len() == lead_len + kept_pieces(ps.take(k as int)).len(),
            lead_len == lead.len(),
            forall|i: int|
                0 <= i < r@.len() ==> #[trigger] r@[i]@ == (lead + kept_pieces(
                    ps.take(k as int),
                ))[i],
        decreases pieces@.len() - k,
    {
        assert(ps.take(k + 1).drop_last() =~= ps.take(k as int));
        if kept(&pieces[k]) {
            let p = pieces[k].clone();
            r.push(p);
        }
        assert(forall|i: int|
            0 <= i < r@.len() ==> #[trigger] r@[i]@ == (lead + kept_pieces(ps.take(k + 1)))[i]);
        k = k + 1;
    }
    assert(ps.take(pieces@.len() as int) =~= ps);
    r
}

/// The rest of the Unix path `s` after its first component, as
/// `path_rest` describes.
pub fn rest_after_first(s: &str) -> (r: String)
    ensures
        r@ == path_rest(s@),
{
    let pieces = split_path_pieces(s);
    let ghost ps = split_pieces(s@);
    let n = pieces.len();
    proof {
        lemma_split_pieces_nonempty(s@);
    }
    let mut a: usize = 1;
    while a < n && !kept(&pieces[a])
        invariant
            n == ps.len(),
            pieces@.len() == n,
            forall|i: int| 0 <= i < pieces@.len() ==> #[trigger] pieces@[i]@ == ps[i],
            1 <= a <= n,
            first_kept_from(ps, 1) == first_kept_from(ps, a as int),
        decreases n - a,
    {
        a = a + 1;
    }
    assert(a as int == first_kept_from(ps, 1));
    let mut b: usize = n;
    while b > a && !kept(&pieces[b - 1])
        invariant
            n == ps.len(),
            pieces@.len() == n,
            forall|i: int| 0 <= i < pieces@.len() ==> #[trigger] pieces@[i]@ == ps[i],
            a <= b <= n,
            last_kept_end(ps, a as int, n as int) == last_kept_end(ps, a as int, b as int),
        decreases b - a,
    {
        b = b - 1;
    }
    assert(b as int == last_kept_end(ps, a as int, n as int));
    let mut r = String::new();
    let mut k = a;
    while k < b
        invariant
            a <= k <= b,
            b <= n,
            n == ps.len(),
            pieces@.len() == n,
            forall|i: int| 0 <= i < pieces@.len() ==> #[trigger] pieces@[i]@ == ps[i],
            r@ == join_pieces(ps.subrange(a as int, k as int)),
        decreases b - k,
    {
        assert(ps.subrange(a as int, k + 1).drop_last() =~= ps.subrange(a as int, k as int));
        if k > a {
            push_char(&mut r, '/');
        }
        r.append(pieces[k].as_str());
        k = k + 1;
    }
    r
}

} // verus!

verus! {

/// The first component of the Unix path `s`, if it has one.
pub fn first_component(s: &str) -> (r: Option<String>)
    ensures
        r is Some <==> path_components(s@).len() > 0,
        r matches Some(c) ==> c@ == path_components(s@)[0],
{
    let mut cs = components(s);
    if cs.len() == 0 {
        None
    } else {
        Some(cs.swap_remove(0))
    }
}

} // verus!

verus! {

/// The final component of a path, if it names a file or directory: not
/// when the path is empty, is the root or a lone `.`, or ends in `..`.
pub open spec fn file_name_spec(s: Seq<char>) -> Option<Seq<char>> {
    let cs = path_components(s);
    if cs.len() == 0 {
        None
    } else {
        let last = cs[cs.len() - 1];
        if last == seq!['/'] || last == seq!['.'] || last == seq!['.', '.'] {
            None
        } else {
            Some(last)
        }
    }
}

/// The final component of the path `s`, as `file_name_spec` says.
pub fn file_name(s: &str) -> (r: Option<String>)
    ensures
        match r {
            Some(f) => file_name_spec(s@) == Some(f@),
            None => file_name_spec(s@) is None,
        },
{
    let mut cs = components(s);
    let n = cs.len();
    if n == 0 {
        return None;
    }
    let last = cs.swap_remove(n - 1);
    let chars = chars_of(last.as_str());
    let is_root = chars.len() == 1 && chars[0] == '/';
    let is_cur = chars.len() == 1 && chars[0] == '.';
    let is_parent = chars.len() == 2 && chars[0] == '.' && chars[1] == '.';
    proof {
        if chars@.len() == 1 {
            if chars@[0] != '/' {
                assert(last@[0] != seq!['/'][0]);
            }
            if chars@[0] != '.' {
                assert(last@[0] != seq!['.'][0]);
            }
            assert(last@.len() != seq!['.', '.'].len());
        } else if chars@.len() == 2 {
            assert(last@.len() != seq!['/'].len());
            assert(last@.len() != seq!['.'].len());
            if !is_parent {
                if chars@[0] != '.' {
                    assert(last@[0] != seq!['.', '.'][0]);
                } else {
                    assert(last@[1] != seq!['.', '.'][1]);
                }
            }
        } else {
            assert(last@.len() != seq!['/'].len());
            assert(last@.len() != seq!['.'].len());
            assert(last@.len() != seq!['.', '.'].len());
        }
        if is_root {
            assert(last@ =~= seq!['/']);
        }
        if is_cur {
            assert(last@ =~= seq!['.']);
        }
        if is_parent {
            assert(last@ =~= seq!['.', '.']);
        }
    }
    if is_root || is_cur || is_parent {
        None
    } else {
        Some(last)
    }
}

} // verus!
