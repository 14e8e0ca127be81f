use vstd::prelude::*;
use crate::model::{text_of, Tree};

verus! {

/// ASCII lower-casing of one character: 'A'..='Z' map to 'a'..='z', every
/// other character is kept.
pub open spec fn lower_char(c: char) -> char {
    if 'A' <= c && c <= 'Z' {
        ((c as u8) + 32u8) as char
    } else {
        c
    }
}

pub open spec fn lower_text(s: Seq<char>) -> Seq<char> {
    s.map_values(|c: char| lower_char(c))
}

/// `needle` occurs in `hay` as a contiguous run.
pub open spec fn occurs_in(needle: Seq<char>, hay: Seq<char>) -> bool {
    exists|i: int| 0 <= i && i + needle.len() <= hay.len() && #[trigger] hay.subrange(i, i + needle.len()) == needle
}

/// A title matches a search term when the lower-cased term occurs in the
/// lower-cased title.
pub open spec fn title_matches(title: Seq<char>, term: Seq<char>) -> bool {
    occurs_in(lower_text(term), lower_text(title))
}

fn lower_char_exec(c: char) -> (r: char)
    ensures
        r == lower_char(c),
{
    if 'A' <= c && c <= 'Z' {
        ((c as u8) + 32u8) as char
    } else {
        c
    }
}

/// The characters of `s`, ASCII lower-cased.
pub fn to_ascii_lower(s: &str) -> (r: Vec<char>)
    ensures
        r@ == lower_text(s@),
{
    let mut r: Vec<char> = Vec::new();
    for c in it: s.chars()
        invariant
            it.seq() == s@,
            r.len() == it.index(),
            forall|j: int| 0 <= j < r.len() ==> #[trigger] r[j] == lower_char(s@[j]),
    {
        r.push(lower_char_exec(c));
    }
    assert(r@ =~= lower_text(s@));
    r
}

fn run_equal_at(hay: &Vec<char>, needle: &Vec<char>, i: usize) -> (r: bool)
    requires
        i + needle.len() <= hay.len(),
    ensures
        r == (hay@.subrange(i as int, i + needle.len()) == needle@),
{
    for j in 0..needle.len()
        invariant
            i + needle.len() <= hay.len(),
            forall|m: int| 0 <= m < j ==> hay@[i + m] == needle@[m],
    {
        if hay[i + j] != needle[j] {
            assert(hay@.subrange(i as int, i + needle.len())[j as int] != needle@[j as int]);
            return false;
        }
    }
    assert(hay@.subrange(i as int, i + needle.len()) =~= needle@);
    true
}

/// Whether `needle` occurs in `hay` as a contiguous run.
pub fn occurs(needle: &Vec<char>, hay: &Vec<char>) -> (r: bool)
    ensures
        r == occurs_in(needle@, hay@),
{
    if needle.len() > hay.len() {
        return false;
    }
    let last = hay.len() - needle.len();
    let mut i: usize = 0;
    loop
        invariant
            last + needle.len() == hay.len(),
            i <= last,
            forall|m: int| 0 <= m < i ==> #[trigger] hay@.subrange(m, m + needle.len()) != needle@,
        decreases last - i,
    {
        if run_equal_at(hay, needle, i) {
            return true;
        }
        if i == last {
            return false;
        }
        i = i + 1;
    }
}

/// Whether `title` matches the search term `term`, ignoring ASCII case.
pub fn matches_title(title: &str, term: &str) -> (r: bool)
    ensures
        r == title_matches(title@, term@),
{
    let t = to_ascii_lower(title);
    let q = to_ascii_lower(term);
    occurs(&q, &t)
}

/// The entries of the subtree rooted at `g`, in pre-order: the group's own
/// entries first, then those of each sub-group's subtree in turn.
pub open spec fn subtree_entries(t: Tree, g: int) -> Seq<usize>
    decreases t.groups.len() - g, t.groups[g].children.len() + 1,
{
    if 0 <= g < t.groups.len() {
        t.groups[g].entries@ + children_entries(t, g, t.groups[g].children.len() as int)
    } else {
        Seq::empty()
    }
}

/// The pre-order entries of the subtrees of the first `n` sub-groups of `g`.
pub open spec fn children_entries(t: Tree, g: int, n: int) -> Seq<usize>
    decreases t.groups.len() - g, n,
{
    if 0 <= g < t.groups.len() && 0 < n <= t.groups[g].children.len() {
        let c = t.groups[g].children[n - 1] as int;
        children_entries(t, g, n - 1) + if g < c < t.groups.len() {
            subtree_entries(t, c)
        } else {
            Seq::empty()
        }
    } else {
        Seq::empty()
    }
}

/// The test that selects the entries shown for a search term.
pub open spec fn matcher(t: Tree, term: Seq<char>) -> spec_fn(usize) -> bool {
    |e: usize| title_matches(text_of(t.entries[e as int].title), term)
}

/// What a search for `term` from group `g` lists: the entries of the subtree
/// whose title matches, in pre-order.
pub open spec fn search_spec(t: Tree, g: int, term: Seq<char>) -> Seq<usize> {
    subtree_entries(t, g).filter(matcher(t, term))
}

proof fn lemma_filter_all(s: Seq<usize>, pred: spec_fn(usize) -> bool)
    requires
        forall|e: usize| s.contains(e) ==> #[trigger] pred(e),
    ensures
        s.filter(pred) == s,
    decreases s.len(),
{
    reveal(Seq::filter);
    if s.len() > 0 {
        assert forall|e: usize| s.drop_last().contains(e) implies #[trigger] pred(e) by {
            let i = choose|i: int| 0 <= i < s.drop_last().len() && s.drop_last()[i] == e;
            assert(s[i] == e);
        }
        lemma_filter_all(s.drop_last(), pred);
        assert(s.contains(s.last()));
        assert(s.drop_last().push(s.last()) =~= s);
    }
}

/// The empty search term occurs in every title: a search for it lists every
/// entry of the subtree, in pre-order.
pub proof fn lemma_empty_term_lists_subtree(t: Tree, g: int)
    ensures
        search_spec(t, g, Seq::empty()) == subtree_entries(t, g),
{
    let pred = matcher(t, Seq::empty());
    assert forall|e: usize| subtree_entries(t, g).contains(e) implies #[trigger] pred(e) by {
        let title = lower_text(text_of(t.entries[e as int].title));
        let q = lower_text(Seq::empty());
        assert(q =~= Seq::<char>::empty());
        assert(title.subrange(0, 0 + q.len() as int) =~= q);
    }
    lemma_filter_all(subtree_entries(t, g), pred);
}

/// A search depends on the term only through its ASCII lower-cased form:
/// "git" and "GIT" list the same entries.
pub proof fn lemma_search_ignores_case(t: Tree, g: int, a: Seq<char>, b: Seq<char>)
    requires
        lower_text(a) == lower_text(b),
    ensures
        search_spec(t, g, a) == search_spec(t, g, b),
{
    assert(matcher(t, a) =~= matcher(t, b));
}

/// The results of a search keep pre-order: the matching direct entries of the
/// group come first, in their order, before any entry of a sub-group.
pub proof fn lemma_search_direct_first(t: Tree, g: int, term: Seq<char>)
    requires
        t.valid_group(g),
    ensures
        search_spec(t, g, term) == t.groups[g].entries@.filter(matcher(t, term))
            + children_entries(t, g, t.groups[g].children.len() as int).filter(matcher(t, term)),
{
    Seq::filter_distributes_over_add(
        t.groups[g].entries@,
        children_entries(t, g, t.groups[g].children.len() as int),
        matcher(t, term),
    );
}

impl Tree {
    /// Appends to `out` the entries of the subtree of `g`, in pre-order, whose
    /// lower-cased title holds `q`.
    fn collect_matches(&self, g: usize, term: &str, q: &Vec<char>, out: &mut Vec<usize>)
        requires
            self.wf(),
            self.valid_group(g as int),
            q@ == lower_text(term@),
        ensures
            final(out)@ == old(out)@ + search_spec(*self, g as int, term@),
        decreases self.groups.len() - g,
    {
        let ghost pred = matcher(*self, term@);
        let ghost start = out@;
        let node = &self.groups[g];
        for k in 0..node.entries.len()
            invariant
                self.wf(),
                self.valid_group(g as int),
                node == self.groups[g as int],
                q@ == lower_text(term@),
                pred == matcher(*self, term@),
                out@ == start + node.entries@.take(k as int).filter(pred),
        {
            let e = node.entries[k];
            assert(node.entries@.take(k + 1).drop_last() =~= node.entries@.take(k as int));
            let title = self.entries[e].title_text();
            let lowered = to_ascii_lower(title.as_str());
            if occurs(q, &lowered) {
                out.push(e);
            }
            proof {
                reveal(Seq::filter);
                assert(node.entries@.take(k + 1).last() == e);
            }
            assert(out@ =~= start + node.entries@.take(k + 1).filter(pred));
        }
        assert(node.entries@.take(node.entries.len() as int) =~= node.entries@);
        let ghost direct = out@;
        for k in 0..node.children.len()
            invariant
                self.wf(),
                self.valid_group(g as int),
                node == self.groups[g as int],
                q@ == lower_text(term@),
                pred == matcher(*self, term@),
                direct == start + node.entries@.filter(pred),
                out@ == direct + children_entries(*self, g as int, k as int).filter(pred),
        {
            let c = node.children[k];
            assert(g < c < self.groups.len());
            let ghost before = out@;
            self.collect_matches(c, term, q, out);
            proof {
                Seq::filter_distributes_over_add(
                    children_entries(*self, g as int, k as int),
                    subtree_entries(*self, c as int),
                    pred,
                );
            }
            assert(out@ =~= direct + children_entries(*self, g as int, k + 1).filter(pred));
        }
        proof {
            Seq::filter_distributes_over_add(
                node.entries@,
                children_entries(*self, g as int, node.children.len() as int),
                pred,
            );
        }
        assert(out@ =~= start + search_spec(*self, g as int, term@));
    }

    /// The entries of the subtree of `g` whose title matches `term`, ignoring
    /// ASCII case, in pre-order.
    pub fn search(&self, g: usize, term: &str) -> (r: Vec<usize>)
        requires
            self.wf(),
            self.valid_group(g as int),
        ensures
            r@ == search_spec(*self, g as int, term@),
    {
        let q = to_ascii_lower(term);
        let mut r: Vec<usize> = Vec::new();
        self.collect_matches(g, term, &q, &mut r);
        assert(r@ =~= search_spec(*self, g as int, term@));
        r
    }
}

} // verus!
