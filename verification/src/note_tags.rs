use crate::text::{str_eq, trim, trimmed};
use vstd::prelude::*;

verus! {

/// The texts of a list of strings.
pub open spec fn views_of(v: Seq<String>) -> Seq<Seq<char>> {
    v.map_values(|s: String| s@)
}

/// The texts other than `t`, in order.
pub open spec fn without_text(s: Seq<Seq<char>>, t: Seq<char>) -> Seq<Seq<char>>
    decreases s.len(),
{
    if s.len() == 0 {
        Seq::empty()
    } else {
        let r = without_text(s.drop_last(), t);
        if s.last() == t {
            r
        } else {
            r.push(s.last())
        }
    }
}

/// The tags of the note being edited: the tags the note gets, and the
/// tags the editor lists (which `set_tags` leaves as they are).
pub struct NoteTags {
    pub(crate) tags: Vec<String>,
    pub(crate) listed: Vec<String>,
}

impl NoteTags {
    /// The tags the note gets.
    pub closed spec fn tag_texts(&self) -> Seq<Seq<char>> {
        views_of(self.tags@)
    }

    /// The tags the editor lists.
    pub closed spec fn listed_texts(&self) -> Seq<Seq<char>> {
        views_of(self.listed@)
    }

    /// An editor without tags.
    pub fn new() -> (r: Self)
        ensures
            r.tag_texts().len() == 0,
            r.listed_texts().len() == 0,
    {
        NoteTags { tags: Vec::new(), listed: Vec::new() }
    }

    /// The tags the note gets.
    pub fn tags(&self) -> (r: Vec<String>)
        ensures
            views_of(r@) == self.tag_texts(),
    {
        let mut r: Vec<String> = Vec::new();
        let mut k: usize = 0;
        while k < self.tags.len()
            invariant
                k <= self.tags@.len(),
                views_of(r@) == views_of(self.tags@).take(k as int),
            decreases self.tags@.len() - k,
        {
            let ghost before = r@;
            r.push(self.tags[k].clone());
            assert(r@ == before.push(self.tags@[k as int]));
            assert(views_of(r@) =~= views_of(before).push(self.tags@[k as int]@));
            assert(views_of(self.tags@).take(k + 1) =~= views_of(self.tags@).take(k as int).push(
                self.tags@[k as int]@,
            ));
            k = k + 1;
        }
        assert(views_of(self.tags@).take(self.tags@.len() as int) =~= views_of(self.tags@));
        r
    }

    /// Gives the note other tags; the list shown stays as it is.
    pub fn set_tags(&mut self, tags: Vec<String>)
        ensures
            final(self).tag_texts() == views_of(tags@),
            final(self).listed_texts() == old(self).listed_texts(),
    {
        self.tags = tags;
    }

    /// Adds a tag to the note and to the list.
    pub fn append_tag(&mut self, tag: String)
        ensures
            final(self).tag_texts() == old(self).tag_texts().push(tag@),
            final(self).listed_texts() == old(self).listed_texts().push(tag@),
    {
        self.listed.push(tag.clone());
        self.tags.push(tag);
        assert(views_of(self.listed@) =~= views_of(old(self).listed@).push(tag@));
        assert(views_of(self.tags@) =~= views_of(old(self).tags@).push(tag@));
    }

    /// Removes a listed tag: its first entry leaves the list, and every
    /// copy of it leaves the note's tags. A tag that is not listed changes
    /// nothing.
    pub fn delete_tag(&mut self, tag: &str)
        ensures
            !old(self).listed_texts().contains(tag@) ==> final(self).tag_texts() == old(
                self,
            ).tag_texts() && final(self).listed_texts() == old(self).listed_texts(),
            old(self).listed_texts().contains(tag@) ==> final(self).tag_texts() == without_text(
                old(self).tag_texts(),
                tag@,
            ) && exists|p: int|
                0 <= p < old(self).listed_texts().len() && old(self).listed_texts()[p] == tag@
                    && (forall|q: int| 0 <= q < p ==> old(self).listed_texts()[q] != tag@)
                    && final(self).listed_texts() == old(self).listed_texts().remove(p),
    {
        let ghost listed0 = views_of(self.listed@);
        let mut p: usize = 0;
        while p < self.listed.len() && !str_eq(self.listed[p].as_str(), tag)
            invariant
                p <= self.listed@.len(),
                listed0 == views_of(self.listed@),
                forall|q: int| 0 <= q < p ==> listed0[q] != tag@,
            decreases self.listed@.len() - p,
        {
            p = p + 1;
        }
        if p == self.listed.len() {
            assert(!listed0.contains(tag@));
            return;
        }
        assert(listed0[p as int] == tag@);
        assert(listed0.contains(tag@));
        let _ = self.listed.remove(p);
        assert(views_of(self.listed@) =~= listed0.remove(p as int));
        let ghost tags0 = views_of(self.tags@);
        let mut kept: Vec<String> = Vec::new();
        let mut k: usize = 0;
        while k < self.tags.len()
            invariant
                k <= self.tags@.len(),
                tags0 == views_of(self.tags@),
                views_of(kept@) == without_text(tags0.take(k as int), tag@),
            decreases self.tags@.len() - k,
        {
            assert(tags0.take(k + 1).drop_last() =~= tags0.take(k as int));
            if !str_eq(self.tags[k].as_str(), tag) {
                kept.push(self.tags[k].clone());
                assert(views_of(kept@) =~= without_text(tags0.take(k as int), tag@).push(
                    tags0[k as int],
                ));
            }
            k = k + 1;
        }
        assert(tags0.take(self.tags@.len() as int) =~= tags0);
        self.tags = kept;
    }

    /// Whether the note already has the tag `t`.
    fn has_tag(&self, t: &str) -> (r: bool)
        ensures
            r == self.tag_texts().contains(t@),
    {
        let ghost tags0 = views_of(self.tags@);
        let mut k: usize = 0;
        while k < self.tags.len()
            invariant
                k <= self.tags@.len(),
                tags0 == views_of(self.tags@),
                forall|q: int| 0 <= q < k ==> tags0[q] != t@,
            decreases self.tags@.len() - k,
        {
            if str_eq(self.tags[k].as_str(), t) {
                assert(tags0[k as int] == t@);
                return true;
            }
            k = k + 1;
        }
        false
    }

    /// Takes what was typed in the tag entry: it becomes a tag, as typed,
    /// unless it is blank once trimmed or the note already has the trimmed
    /// text as a tag. Says whether it was taken (the entry is then cleared).
    pub fn apply_tag_entry(&mut self, text: String) -> (r: bool)
        ensures
            r == (trimmed(text@).len() > 0 && !old(self).tag_texts().contains(trimmed(text@))),
            r ==> final(self).tag_texts() == old(self).tag_texts().push(text@)
                && final(self).listed_texts() == old(self).listed_texts().push(text@),
            !r ==> final(self).tag_texts() == old(self).tag_texts() && final(self).listed_texts()
                == old(self).listed_texts(),
    {
        let t = trim(text.as_str());
        if t.unicode_len() > 0 && !self.has_tag(t.as_str()) {
            self.append_tag(text);
            true
        } else {
            false
        }
    }
}

/// Once a listed tag is deleted, the note no longer has it.
pub proof fn law_deleted_tag_is_gone(s: Seq<Seq<char>>, t: Seq<char>)
    ensures
        !without_text(s, t).contains(t),
    decreases s.len(),
{
    if s.len() > 0 {
        law_deleted_tag_is_gone(s.drop_last(), t);
        let r = without_text(s.drop_last(), t);
        if s.last() != t {
            assert forall|i: int| 0 <= i < r.push(s.last()).len() implies r.push(s.last())[i] != t by {
                if i < r.len() {
                    assert(r[i] != t);
                }
            }
        }
    }
}

/// Deleting a tag keeps every other tag, in order.
pub proof fn law_delete_keeps_other_tags(s: Seq<Seq<char>>, t: Seq<char>, u: Seq<char>)
    requires
        u != t,
    ensures
        without_text(s, t).contains(u) <==> s.contains(u),
    decreases s.len(),
{
    if s.len() > 0 {
        law_delete_keeps_other_tags(s.drop_last(), t, u);
        let r = without_text(s.drop_last(), t);
        let d = s.drop_last();
        assert(s =~= d.push(s.last()));
        if s.contains(u) {
            let i = choose|i: int| 0 <= i < s.len() && s[i] == u;
            if i < d.len() {
                assert(d[i] == u);
            }
        }
        if d.contains(u) {
            let i = choose|i: int| 0 <= i < d.len() && d[i] == u;
            assert(s[i] == u);
        }
        if s.last() != t {
            if r.push(s.last()).contains(u) {
                let i = choose|i: int| 0 <= i < r.push(s.last()).len() && r.push(s.last())[i] == u;
                if i < r.len() {
                    assert(r[i] == u);
                }
            }
            if r.contains(u) {
                let i = choose|i: int| 0 <= i < r.len() && r[i] == u;
                assert(r.push(s.last())[i] == u);
            }
            if s.last() == u {
                assert(r.push(s.last())[r.len() as int] == u);
            }
        }
    }
}

} // verus!
