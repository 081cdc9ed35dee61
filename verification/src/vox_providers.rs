use crate::path::{has_root, path_rest, rest_after_first};
use crate::text::concat;
use vstd::prelude::*;

verus! {

/// The value of bytes read as a big-endian number.
pub open spec fn big_endian_value(b: Seq<u8>) -> nat
    decreases b.len(),
{
    if b.len() == 0 {
        0
    } else {
        big_endian_value(b.drop_last()) * 256 + b.last() as nat
    }
}

/// The number of zero bytes that the bytes start with.
pub open spec fn leading_zero_bytes(b: Seq<u8>) -> nat
    decreases b.len(),
{
    if b.len() == 0 || b[0] != 0 {
        0
    } else {
        1 + leading_zero_bytes(b.skip(1))
    }
}

/// The Bitcoin base-58 alphabet.
pub open spec fn base58_alphabet() -> Seq<char> {
    "123456789ABCDEFGHJKLMNPQRSTUVWXYZabcdefghijkmnopqrstuvwxyz"@
}

/// The base-58 digits of a number, most significant first; none for zero.
pub open spec fn base58_digits(n: nat) -> Seq<char>
    decreases n,
{
    if n == 0 {
        Seq::empty()
    } else {
        base58_digits(n / 58).push(base58_alphabet()[(n % 58) as int])
    }
}

/// Base-58 (Bitcoin alphabet): one `1` for each leading zero byte, then
/// the base-58 digits of the bytes' big-endian value.
pub open spec fn base58_spec(b: Seq<u8>) -> Seq<char> {
    Seq::new(leading_zero_bytes(b), |i: int| '1') + base58_digits(big_endian_value(b))
}

/// No two digits of the alphabet are the same character.
proof fn lemma_alphabet_distinct()
    ensures
        base58_alphabet().len() == 58,
        forall|i: int, j: int|
            0 <= i < 58 && 0 <= j < 58 && i != j ==> #[trigger] base58_alphabet()[i]
                != #[trigger] base58_alphabet()[j],
{
    reveal_strlit("123456789ABCDEFGHJKLMNPQRSTUVWXYZabcdefghijkmnopqrstuvwxyz");
    let a = base58_alphabet();
    assert forall|i: int, j: int| 0 <= i < 58 && 0 <= j < 58 && i < j implies #[trigger] a[i]
        != #[trigger] a[j] by {
        assert((a[i] as u32) < (a[j] as u32));
    }
}

/// The first base-58 digit of a positive number is not the zero digit.
proof fn lemma_digits_lead(n: nat)
    requires
        n > 0,
    ensures
        base58_digits(n).len() > 0,
        base58_digits(n)[0] != '1',
    decreases n,
{
    lemma_alphabet_distinct();
    reveal_strlit("123456789ABCDEFGHJKLMNPQRSTUVWXYZabcdefghijkmnopqrstuvwxyz");
    let a = base58_alphabet();
    assert(a[0] == '1');
    if n / 58 == 0 {
        assert(base58_digits(0) =~= Seq::<char>::empty());
        assert(n % 58 != 0);
        assert(a[(n % 58) as int] != a[0]);
    } else {
        lemma_digits_lead(n / 58);
    }
}

/// Different numbers have different base-58 digits.
proof fn lemma_digits_injective(n: nat, m: nat)
    requires
        base58_digits(n) == base58_digits(m),
    ensures
        n == m,
    decreases n,
{
    if n == 0 || m == 0 {
        if n > 0 {
            lemma_digits_lead(n);
            assert(base58_digits(0) =~= Seq::<char>::empty());
        }
        if m > 0 {
            lemma_digits_lead(m);
            assert(base58_digits(0) =~= Seq::<char>::empty());
        }
    } else {
        lemma_alphabet_distinct();
        let dn = base58_digits(n);
        let dm = base58_digits(m);
        assert(dn.last() == dm.last());
        assert(dn.drop_last() =~= base58_digits(n / 58));
        assert(dm.drop_last() =~= base58_digits(m / 58));
        assert(base58_alphabet()[(n % 58) as int] == base58_alphabet()[(m % 58) as int]);
        lemma_digits_injective(n / 58, m / 58);
    }
}

/// Equal encodings come from bytes with as many leading zero bytes and
/// the same value.
proof fn lemma_base58_parts(b1: Seq<u8>, b2: Seq<u8>)
    requires
        base58_spec(b1) == base58_spec(b2),
    ensures
        leading_zero_bytes(b1) == leading_zero_bytes(b2),
        big_endian_value(b1) == big_endian_value(b2),
{
    let z1 = leading_zero_bytes(b1);
    let z2 = leading_zero_bytes(b2);
    let v1 = big_endian_value(b1);
    let v2 = big_endian_value(b2);
    let s = base58_spec(b1);
    let o1 = Seq::new(z1, |i: int| '1');
    let o2 = Seq::new(z2, |i: int| '1');
    let d1 = base58_digits(v1);
    let d2 = base58_digits(v2);
    assert(s == o1 + d1);
    assert(s == o2 + d2);
    if z1 < z2 {
        assert(s[z1 as int] == '1');
        if v1 > 0 {
            lemma_digits_lead(v1);
            assert(s[z1 as int] == d1[0]);
        } else {
            assert(d1 =~= Seq::<char>::empty());
        }
    }
    if z2 < z1 {
        assert(s[z2 as int] == '1');
        if v2 > 0 {
            lemma_digits_lead(v2);
            assert(s[z2 as int] == d2[0]);
        } else {
            assert(d2 =~= Seq::<char>::empty());
        }
    }
    assert(z1 == z2);
    assert(d1 =~= s.skip(z1 as int));
    assert(d2 =~= s.skip(z2 as int));
    lemma_digits_injective(v1, v2);
}

/// 256 to the power `n`.
pub open spec fn byte_power(n: nat) -> nat
    decreases n,
{
    if n == 0 {
        1
    } else {
        256 * byte_power((n - 1) as nat)
    }
}

proof fn lemma_byte_power_grows(m: nat, n: nat)
    requires
        m <= n,
    ensures
        1 <= byte_power(m) <= byte_power(n),
    decreases n,
{
    if m < n {
        lemma_byte_power_grows(m, (n - 1) as nat);
    } else if n > 0 {
        lemma_byte_power_grows((n - 1) as nat, (n - 1) as nat);
    }
}

/// The value of bytes is below 256 to the power of their number.
proof fn lemma_value_below(c: Seq<u8>)
    ensures
        big_endian_value(c) < byte_power(c.len()),
    decreases c.len(),
{
    if c.len() > 0 {
        lemma_value_below(c.drop_last());
    }
}

/// The value of bytes read from the front.
proof fn lemma_value_front(x: u8, c: Seq<u8>)
    ensures
        big_endian_value(seq![x] + c) == x * byte_power(c.len()) + big_endian_value(c),
    decreases c.len(),
{
    let s = seq![x] + c;
    if c.len() == 0 {
        assert(s.drop_last() =~= Seq::<u8>::empty());
        assert(big_endian_value(Seq::<u8>::empty()) == 0);
        assert(big_endian_value(s) == x as nat);
        assert(x * byte_power(0) == x) by (nonlinear_arith)
            requires
                byte_power(0) == 1,
        ;
    } else {
        assert(s.drop_last() =~= seq![x] + c.drop_last());
        assert(s.last() == c.last());
        lemma_value_front(x, c.drop_last());
        let a = big_endian_value(s.drop_last());
        let w = big_endian_value(c.drop_last());
        let p = byte_power((c.len() - 1) as nat);
        let pp = byte_power(c.len());
        assert(a * 256 + c.last() == x * pp + w * 256 + c.last()) by (nonlinear_arith)
            requires
                a == x * p + w,
                pp == 256 * p,
        ;
    }
}

/// Bytes of one length with the same value are the same bytes.
proof fn lemma_same_length_value(b1: Seq<u8>, b2: Seq<u8>)
    requires
        b1.len() == b2.len(),
        big_endian_value(b1) == big_endian_value(b2),
    ensures
        b1 == b2,
    decreases b1.len(),
{
    if b1.len() > 0 {
        lemma_same_length_value(b1.drop_last(), b2.drop_last());
        assert(b1 =~= b1.drop_last().push(b1.last()));
        assert(b2 =~= b2.drop_last().push(b2.last()));
    } else {
        assert(b1 =~= b2);
    }
}

/// Bytes are fixed by how many zero bytes they start with and their value.
proof fn lemma_bytes_from_parts(b1: Seq<u8>, b2: Seq<u8>)
    requires
        leading_zero_bytes(b1) == leading_zero_bytes(b2),
        big_endian_value(b1) == big_endian_value(b2),
    ensures
        b1 == b2,
    decreases b1.len(),
{
    if leading_zero_bytes(b1) > 0 {
        assert(b1 =~= seq![b1[0]] + b1.skip(1));
        assert(b2 =~= seq![b2[0]] + b2.skip(1));
        lemma_value_front(b1[0], b1.skip(1));
        lemma_value_front(b2[0], b2.skip(1));
        lemma_bytes_from_parts(b1.skip(1), b2.skip(1));
    } else if b1.len() == 0 || b2.len() == 0 {
        if b1.len() > 0 {
            lemma_lead_value(b1);
        }
        if b2.len() > 0 {
            lemma_lead_value(b2);
        }
        assert(b1 =~= b2);
    } else {
        lemma_lead_value(b1);
        lemma_lead_value(b2);
        if b1.len() < b2.len() {
            lemma_byte_power_grows(b1.len(), (b2.len() - 1) as nat);
        }
        if b2.len() < b1.len() {
            lemma_byte_power_grows(b2.len(), (b1.len() - 1) as nat);
        }
        lemma_same_length_value(b1, b2);
    }
}

/// Bytes that do not start with a zero byte have a value of at least 256
/// to the power of their number less one.
proof fn lemma_lead_value(b: Seq<u8>)
    requires
        b.len() > 0,
        b[0] != 0,
    ensures
        byte_power((b.len() - 1) as nat) <= big_endian_value(b) < byte_power(b.len()),
{
    let c = b.skip(1);
    assert(b =~= seq![b[0]] + c);
    lemma_value_front(b[0], c);
    lemma_value_below(c);
    let x = b[0];
    let p = byte_power(c.len());
    let w = big_endian_value(c);
    assert(p <= x * p + w < 256 * p) by (nonlinear_arith)
        requires
            1 <= x <= 255,
            0 <= w < p,
    ;
}

/// Base-58 tells bytes apart: different bytes have different encodings.
pub proof fn law_base58_injective(b1: Seq<u8>, b2: Seq<u8>)
    requires
        b1 != b2,
    ensures
        base58_spec(b1) != base58_spec(b2),
{
    if base58_spec(b1) == base58_spec(b2) {
        lemma_base58_parts(b1, b2);
        lemma_bytes_from_parts(b1, b2);
    }
}

/// `bs58::encode(..).into_string()`: the Bitcoin-alphabet base-58
/// encoding of the bytes.
#[verifier::external_body]
fn base58_encode(bytes: &[u8]) -> (r: String)
    ensures
        r@ == base58_spec(bytes@),
{
    bs58::encode(bytes).into_string()
}

/// The file of the site that a post's page is written to: named by the
/// base-58 encoding of the author's identifier bytes followed by the
/// entry key, in the folder of the tag if one is given, else in the
/// folder of the author.
pub open spec fn post_path_spec(
    author_bytes: Seq<u8>,
    key: Seq<u8>,
    author: Seq<char>,
    tag: Option<Seq<char>>,
) -> Seq<char> {
    let folder = match tag {
        Some(t) => t,
        None => author,
    };
    folder + "/"@ + base58_spec(author_bytes + key) + ".vox"@
}

/// Posts by one author in one folder whose entry keys differ are written
/// to different files: a post's file is named after the author's bytes
/// and every byte of its key, so no two keys share a file.
pub proof fn law_post_paths_distinct(
    author_bytes: Seq<u8>,
    k1: Seq<u8>,
    k2: Seq<u8>,
    author: Seq<char>,
    tag: Option<Seq<char>>,
)
    requires
        k1 != k2,
    ensures
        post_path_spec(author_bytes, k1, author, tag) != post_path_spec(author_bytes, k2, author, tag),
{
    let b1 = author_bytes + k1;
    let b2 = author_bytes + k2;
    if b1 == b2 {
        assert(k1 =~= b1.skip(author_bytes.len() as int));
        assert(k2 =~= b2.skip(author_bytes.len() as int));
    }
    law_base58_injective(b1, b2);
    let folder = match tag {
        Some(t) => t,
        None => author,
    };
    let e1 = base58_spec(b1);
    let e2 = base58_spec(b2);
    let p1 = post_path_spec(author_bytes, k1, author, tag);
    let p2 = post_path_spec(author_bytes, k2, author, tag);
    if p1 == p2 {
        let lo = folder.len() + 1;
        assert(p1 == folder + "/"@ + e1 + ".vox"@);
        assert(p2 == folder + "/"@ + e2 + ".vox"@);
        reveal_strlit("/");
        reveal_strlit(".vox");
        assert(e1 =~= p1.subrange(lo as int, p1.len() - 4));
        assert(e2 =~= p2.subrange(lo as int, p2.len() - 4));
    }
}

/// The file of the site that the page of a post is written to.
/// `author_bytes` and `author` are the author's identifier as bytes and as
/// text; `key` is the post's entry key.
pub fn get_post_path(author_bytes: &[u8], key: &[u8], author: &str, tag: Option<String>) -> (r:
    String)
    ensures
        r@ == post_path_spec(
            author_bytes@,
            key@,
            author@,
            match tag {
                Some(t) => Some(t@),
                None => None,
            },
        ),
{
    let mut id_bytes: Vec<u8> = Vec::new();
    let mut i: usize = 0;
    while i < author_bytes.len()
        invariant
            i <= author_bytes@.len(),
            id_bytes@ == author_bytes@.take(i as int),
        decreases author_bytes@.len() - i,
    {
        id_bytes.push(author_bytes[i]);
        assert(author_bytes@.take(i as int).push(author_bytes@[i as int]) =~= author_bytes@.take(
            i + 1,
        ));
        i = i + 1;
    }
    let mut j: usize = 0;
    while j < key.len()
        invariant
            j <= key@.len(),
            id_bytes@ == author_bytes@ + key@.take(j as int),
        decreases key@.len() - j,
    {
        id_bytes.push(key[j]);
        assert(author_bytes@ + key@.take(j as int).push(key@[j as int]) =~= author_bytes@
            + key@.take(j + 1));
        j = j + 1;
    }
    assert(author_bytes@.take(author_bytes@.len() as int) =~= author_bytes@);
    assert(key@.take(key@.len() as int) =~= key@);
    let id = base58_encode(id_bytes.as_slice());
    let mut r = match tag {
        Some(t) => t,
        None => String::from_str(author),
    };
    r.append("/");
    r.append(id.as_str());
    r.append(".vox");
    r
}

/// Whether `s` ends with `suffix`.
pub open spec fn has_suffix(s: Seq<char>, suffix: Seq<char>) -> bool {
    suffix.len() <= s.len() && s.skip(s.len() - suffix.len()) == suffix
}

/// `s` without `suffix` at its end, if it ends with it.
pub open spec fn without_suffix(s: Seq<char>, suffix: Seq<char>) -> Seq<char> {
    if has_suffix(s, suffix) {
        s.take(s.len() - suffix.len())
    } else {
        s
    }
}

/// `s` without `suffix`, if `s` ends with it.
pub fn strip_suffix(s: &str, suffix: &str) -> (r: String)
    ensures
        r@ == without_suffix(s@, suffix@),
{
    let n = s.unicode_len();
    let m = suffix.unicode_len();
    if m > n {
        return String::from_str(s);
    }
    let mut i: usize = 0;
    while i < m
        invariant
            n == s@.len(),
            m == suffix@.len(),
            m <= n,
            i <= m,
            forall|j: int| 0 <= j < i ==> s@[n - m + j] == suffix@[j],
        decreases m - i,
    {
        if s.get_char(n - m + i) != suffix.get_char(i) {
            assert(s@.skip(n - m)[i as int] != suffix@[i as int]);
            return String::from_str(s);
        }
        i = i + 1;
    }
    assert(s@.skip(n - m) =~= suffix@);
    String::from_str(s.substring_char(0, n - m))
}

/// A path with another one pushed onto it, as `PathBuf::push` does on
/// Unix: an absolute path replaces it; otherwise a separator goes between
/// them unless the first is empty or already ends with one.
pub open spec fn push_path_spec(base: Seq<char>, p: Seq<char>) -> Seq<char> {
    if has_root(p) {
        p
    } else if base.len() > 0 && base.last() != '/' {
        base + "/"@ + p
    } else {
        base + p
    }
}

/// `base` with `p` pushed onto it, as `PathBuf::push` does on Unix.
pub fn push_path(base: &str, p: &str) -> (r: String)
    ensures
        r@ == push_path_spec(base@, p@),
{
    let n = base.unicode_len();
    if p.unicode_len() > 0 && p.get_char(0) == '/' {
        String::from_str(p)
    } else if n > 0 && base.get_char(n - 1) != '/' {
        let mut r = String::from_str(base);
        r.append("/");
        r.append(p);
        r
    } else {
        concat(base, p)
    }
}

/// The permalink of a post's page: `me` for the user's own posts, else the
/// author, followed by the post's file path (an absolute path) made
/// relative and stripped of its `.toml` extension. `None` when the file
/// path is not absolute.
pub open spec fn permalink_spec(by_me: bool, author: Seq<char>, file_path: Seq<char>) -> Option<
    Seq<char>,
> {
    if !has_root(file_path) {
        None
    } else {
        let owner = if by_me {
            "me"@
        } else {
            author
        };
        Some(push_path_spec(owner, without_suffix(path_rest(file_path), ".toml"@)))
    }
}

/// The permalink of a post's page, given whether the user wrote it, the
/// author's identifier as text, and the file path of its entry.
pub fn get_post_permalink(by_me: bool, author: &str, file_path: &str) -> (r: Option<String>)
    ensures
        match r {
            Some(p) => permalink_spec(by_me, author@, file_path@) == Some(p@),
            None => permalink_spec(by_me, author@, file_path@) is None,
        },
{
    if !(file_path.unicode_len() > 0 && file_path.get_char(0) == '/') {
        return None;
    }
    let relative = rest_after_first(file_path);
    let post_url = strip_suffix(relative.as_str(), ".toml");
    let owner = if by_me {
        String::from_str("me")
    } else {
        String::from_str(author)
    };
    Some(push_path(owner.as_str(), post_url.as_str()))
}

/// The entry file that a post page's path stands for: the path without a
/// trailing `.html`, with `.toml` after it.
pub open spec fn post_file_spec(page_path: Seq<char>) -> Seq<char> {
    without_suffix(page_path, ".html"@) + ".toml"@
}

/// The entry file of the post whose page is at `page_path`.
pub fn post_file_path(page_path: &str) -> (r: String)
    ensures
        r@ == post_file_spec(page_path@),
{
    let mut r = strip_suffix(page_path, ".html");
    r.append(".toml");
    r
}

} // verus!
