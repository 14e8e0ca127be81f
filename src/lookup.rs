use vstd::prelude::*;
use crate::model::{text_of, Tree};

verus! {

/// The position of the first occurrence of `x` in `s`, if any.
pub open spec fn first_index(s: Seq<Seq<char>>, x: Seq<char>) -> Option<int>
    decreases s.len(),
{
    if s.len() == 0 {
        None
    } else {
        match first_index(s.drop_last(), x) {
            Some(i) => Some(i),
            None => if s.last() == x {
                Some(s.len() - 1)
            } else {
                None
            },
        }
    }
}

/// A name that is listed is found, at or before the place where it is listed,
/// and the position found holds that name.
pub proof fn lemma_listed_is_found(s: Seq<Seq<char>>, k: int)
    requires
        0 <= k < s.len(),
    ensures
        first_index(s, s[k]) is Some,
        0 <= first_index(s, s[k])->0 <= k,
        s[first_index(s, s[k])->0] == s[k],
    decreases s.len(),
{
    if k < s.len() - 1 {
        assert(s.drop_last()[k] == s[k]);
        lemma_listed_is_found(s.drop_last(), k);
    } else if first_index(s.drop_last(), s[k]) is Some {
        lemma_found_is_listed(s.drop_last(), s[k]);
    }
}

/// A position found holds the name looked for.
pub proof fn lemma_found_is_listed(s: Seq<Seq<char>>, x: Seq<char>)
    requires
        first_index(s, x) is Some,
    ensures
        0 <= first_index(s, x)->0 < s.len(),
        s[first_index(s, x)->0] == x,
    decreases s.len(),
{
    if s.len() > 0 && first_index(s.drop_last(), x) is Some {
        lemma_found_is_listed(s.drop_last(), x);
    }
}

/// The group that a name picked from the sub-group menu of `g` resolves to:
/// the first sub-group of that name.
pub open spec fn resolve_group(t: Tree, g: int, name: Seq<char>) -> Option<usize> {
    match first_index(t.child_names(g), name) {
        Some(k) => Some(t.groups[g].children[k]),
        None => None,
    }
}

/// The entry that a title picked from the entry menu of `g` resolves to: the
/// first direct entry with that title.
pub open spec fn resolve_entry(t: Tree, g: int, title: Seq<char>) -> Option<usize> {
    match first_index(t.entry_titles(g), title) {
        Some(k) => Some(t.groups[g].entries[k]),
        None => None,
    }
}

/// Every name listed in the sub-group menu of `g` resolves, to a sub-group of
/// `g` that carries that name.
pub proof fn lemma_listed_group_resolves(t: Tree, g: int, k: int)
    requires
        t.wf(),
        t.valid_group(g),
        0 <= k < t.groups[g].children.len(),
    ensures
        resolve_group(t, g, t.child_names(g)[k]) is Some,
        t.valid_group(resolve_group(t, g, t.child_names(g)[k])->0 as int),
        t.groups[g].children@.contains(resolve_group(t, g, t.child_names(g)[k])->0),
        t.groups[resolve_group(t, g, t.child_names(g)[k])->0 as int].name@ == t.child_names(g)[k],
{
    lemma_listed_is_found(t.child_names(g), k);
    let j = first_index(t.child_names(g), t.child_names(g)[k])->0;
    assert(t.groups[g].children[j] == t.groups[g].children@[j]);
}

/// Every title listed in the entry menu of `g` resolves, to a direct entry of
/// `g` that carries that title.
pub proof fn lemma_listed_entry_resolves(t: Tree, g: int, k: int)
    requires
        t.wf(),
        t.valid_group(g),
        0 <= k < t.groups[g].entries.len(),
    ensures
        resolve_entry(t, g, t.entry_titles(g)[k]) is Some,
        resolve_entry(t, g, t.entry_titles(g)[k])->0 < t.entries.len(),
        t.groups[g].entries@.contains(resolve_entry(t, g, t.entry_titles(g)[k])->0),
        text_of(t.entries[resolve_entry(t, g, t.entry_titles(g)[k])->0 as int].title)
            == t.entry_titles(g)[k],
{
    lemma_listed_is_found(t.entry_titles(g), k);
    let j = first_index(t.entry_titles(g), t.entry_titles(g)[k])->0;
    assert(t.groups[g].entries[j] == t.groups[g].entries@[j]);
}

impl Tree {
    /// The sub-group of `g` that a name picked from its group menu designates:
    /// the first one with exactly that name.
    pub fn find_group(&self, g: usize, name: &String) -> (r: Option<usize>)
        requires
            self.wf(),
            self.valid_group(g as int),
        ensures
            r == resolve_group(*self, g as int, name@),
    {
        let children = &self.groups[g].children;
        let ghost names = self.child_names(g as int);
        for k in 0..children.len()
            invariant
                self.wf(),
                self.valid_group(g as int),
                children == self.groups[g as int].children,
                names == self.child_names(g as int),
                first_index(names.take(k as int), name@) is None,
        {
            let c = children[k];
            assert(names.take(k + 1).drop_last() =~= names.take(k as int));
            if self.groups[c].name.eq(name) {
                assert(first_index(names.take(k + 1), name@) == Some(k as int));
                proof {
                    lemma_prefix_keeps_first(names, k + 1, name@);
                }
                return Some(c);
            }
        }
        assert(names.take(children.len() as int) =~= names);
        None
    }

    /// The direct entry of `g` that a title picked from its entry menu
    /// designates: the first one with exactly that title.
    pub fn find_entry(&self, g: usize, title: &String) -> (r: Option<usize>)
        requires
            self.wf(),
            self.valid_group(g as int),
        ensures
            r == resolve_entry(*self, g as int, title@),
    {
        let entries = &self.groups[g].entries;
        let ghost titles = self.entry_titles(g as int);
        for k in 0..entries.len()
            invariant
                self.wf(),
                self.valid_group(g as int),
                entries == self.groups[g as int].entries,
                titles == self.entry_titles(g as int),
                first_index(titles.take(k as int), title@) is None,
        {
            let e = entries[k];
            assert(titles.take(k + 1).drop_last() =~= titles.take(k as int));
            if self.entries[e].title_text().eq(title) {
                assert(first_index(titles.take(k + 1), title@) == Some(k as int));
                proof {
                    lemma_prefix_keeps_first(titles, k + 1, title@);
                }
                return Some(e);
            }
        }
        assert(titles.take(entries.len() as int) =~= titles);
        None
    }
}

/// What is found in a prefix is what is found in the whole.
proof fn lemma_prefix_keeps_first(s: Seq<Seq<char>>, n: int, x: Seq<char>)
    requires
        0 <= n <= s.len(),
        first_index(s.take(n), x) is Some,
    ensures
        first_index(s, x) == first_index(s.take(n), x),
    decreases s.len() - n,
{
    if n < s.len() {
        assert(s.take(n + 1).drop_last() =~= s.take(n));
        lemma_prefix_keeps_first(s, n + 1, x);
    } else {
        assert(s.take(n) =~= s);
    }
}

} // verus!
