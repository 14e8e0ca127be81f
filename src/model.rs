use vstd::prelude::*;

verus! {

/// The text shown for an optional field: its content, or nothing when absent.
pub open spec fn text_of(o: Option<String>) -> Seq<char> {
    match o {
        Some(s) => s@,
        None => Seq::empty(),
    }
}

fn field_text(o: &Option<String>) -> (r: String)
    ensures
        r@ == text_of(*o),
{
    match o {
        Some(s) => s.clone(),
        None => String::new(),
    }
}

/// A leaf record of the database; each field may be absent.
pub struct Entry {
    pub title: Option<String>,
    pub username: Option<String>,
    pub password: Option<String>,
    pub url: Option<String>,
}

impl Entry {
    pub fn title_text(&self) -> (r: String)
        ensures
            r@ == text_of(self.title),
    {
        field_text(&self.title)
    }

    pub fn username_text(&self) -> (r: String)
        ensures
            r@ == text_of(self.username),
    {
        field_text(&self.username)
    }

    pub fn password_text(&self) -> (r: String)
        ensures
            r@ == text_of(self.password),
    {
        field_text(&self.password)
    }

    pub fn url_text(&self) -> (r: String)
        ensures
            r@ == text_of(self.url),
    {
        field_text(&self.url)
    }
}

/// A group of the tree: its name, its sub-groups (indices into the tree's
/// groups) and its direct entries (indices into the tree's entries), both in
/// display order.
pub struct GroupNode {
    pub name: String,
    pub children: Vec<usize>,
    pub entries: Vec<usize>,
}

/// The whole group tree, held as two arenas. Group 0 is the root; a
/// sub-group always has a larger index than its parent, which makes the
/// structure acyclic.
pub struct Tree {
    pub groups: Vec<GroupNode>,
    pub entries: Vec<Entry>,
}

/// The index of the root group.
pub const ROOT: usize = 0;

impl Tree {
    pub open spec fn wf(&self) -> bool {
        &&& self.groups.len() > 0
        &&& forall|g: int, k: int|
            0 <= g < self.groups.len() && 0 <= k < self.groups[g].children.len() ==> g
                < #[trigger] self.groups[g].children[k] < self.groups.len()
        &&& forall|g: int, k: int|
            0 <= g < self.groups.len() && 0 <= k < self.groups[g].entries.len()
                ==> #[trigger] self.groups[g].entries[k] < self.entries.len()
    }

    pub open spec fn valid_group(&self, g: int) -> bool {
        0 <= g < self.groups.len()
    }

    /// A tree that holds only an empty root group.
    pub fn new(root_name: String) -> (t: Tree)
        ensures
            t.wf(),
            t.groups.len() == 1,
            t.groups[0].name@ == root_name@,
            t.groups[0].children.len() == 0,
            t.groups[0].entries.len() == 0,
            t.entries.len() == 0,
    {
        let root = GroupNode { name: root_name, children: Vec::new(), entries: Vec::new() };
        let mut groups: Vec<GroupNode> = Vec::new();
        groups.push(root);
        Tree { groups, entries: Vec::new() }
    }

    /// Adds an empty group as the last sub-group of `parent`, and returns its index.
    pub fn add_group(&mut self, parent: usize, name: String) -> (r: usize)
        requires
            old(self).wf(),
            old(self).valid_group(parent as int),
            old(self).groups.len() < usize::MAX,
        ensures
            final(self).wf(),
            r == old(self).groups.len(),
            final(self).groups.len() == old(self).groups.len() + 1,
            final(self).groups[r as int].name@ == name@,
            final(self).groups[r as int].children.len() == 0,
            final(self).groups[r as int].entries.len() == 0,
            final(self).groups[parent as int].name == old(self).groups[parent as int].name,
            final(self).groups[parent as int].children@ == old(
                self,
            ).groups[parent as int].children@.push(r),
            final(self).groups[parent as int].entries == old(self).groups[parent as int].entries,
            forall|g: int|
                0 <= g < old(self).groups.len() && g != parent ==> final(self).groups[g] == old(
                    self,
                ).groups[g],
            final(self).entries == old(self).entries,
    {
        let r = self.groups.len();
        let node = GroupNode { name, children: Vec::new(), entries: Vec::new() };
        self.groups.push(node);
        let ghost pushed = self.groups@;
        let mut p = self.groups.remove(parent);
        p.children.push(r);
        self.groups.insert(parent, p);
        assert(self.groups@ =~= pushed.update(parent as int, p));
        assert forall|g: int, k: int|
            0 <= g < self.groups.len() && 0 <= k < self.groups[g].children.len() implies g
                < #[trigger] self.groups[g].children[k] < self.groups.len() by {
            if g != parent && g < r {
                assert(self.groups[g] == old(self).groups[g]);
            }
        }
        assert forall|g: int, k: int|
            0 <= g < self.groups.len() && 0 <= k < self.groups[g].entries.len()
                implies #[trigger] self.groups[g].entries[k] < self.entries.len() by {
            if g != parent && g < r {
                assert(self.groups[g] == old(self).groups[g]);
            }
        }
        r
    }

    /// Adds `entry` as the last direct entry of `group`, and returns its index.
    pub fn add_entry(&mut self, group: usize, entry: Entry) -> (r: usize)
        requires
            old(self).wf(),
            old(self).valid_group(group as int),
        ensures
            final(self).wf(),
            r == old(self).entries.len(),
            final(self).entries@ == old(self).entries@.push(entry),
            final(self).groups.len() == old(self).groups.len(),
            final(self).groups[group as int].name == old(self).groups[group as int].name,
            final(self).groups[group as int].children == old(self).groups[group as int].children,
            final(self).groups[group as int].entries@ == old(
                self,
            ).groups[group as int].entries@.push(r),
            forall|g: int|
                0 <= g < old(self).groups.len() && g != group ==> final(self).groups[g] == old(
                    self,
                ).groups[g],
    {
        let r = self.entries.len();
        self.entries.push(entry);
        let mut node = self.groups.remove(group);
        node.entries.push(r);
        self.groups.insert(group, node);
        assert(self.groups@ =~= old(self).groups@.update(group as int, node));
        assert forall|g: int, k: int|
            0 <= g < self.groups.len() && 0 <= k < self.groups[g].children.len() implies g
                < #[trigger] self.groups[g].children[k] < self.groups.len() by {
            if g != group {
                assert(self.groups[g] == old(self).groups[g]);
            }
        }
        assert forall|g: int, k: int|
            0 <= g < self.groups.len() && 0 <= k < self.groups[g].entries.len()
                implies #[trigger] self.groups[g].entries[k] < self.entries.len() by {
            if g != group {
                assert(self.groups[g] == old(self).groups[g]);
            }
        }
        r
    }

    /// The entry at index `e`.
    pub fn entry(&self, e: usize) -> (r: &Entry)
        requires
            e < self.entries.len(),
        ensures
            *r == self.entries[e as int],
    {
        &self.entries[e]
    }

    /// The names of the direct sub-groups of `g`, in display order.
    pub open spec fn child_names(&self, g: int) -> Seq<Seq<char>> {
        self.groups[g].children@.map_values(|c: usize| self.groups[c as int].name@)
    }

    /// The titles of the direct entries of `g`, in display order; an absent
    /// title is the empty text.
    pub open spec fn entry_titles(&self, g: int) -> Seq<Seq<char>> {
        self.groups[g].entries@.map_values(|e: usize| text_of(self.entries[e as int].title))
    }

    /// Number of direct entries of group `g`.
    pub fn entry_count(&self, g: usize) -> (r: usize)
        requires
            self.valid_group(g as int),
        ensures
            r == self.groups[g as int].entries.len(),
    {
        self.groups[g].entries.len()
    }

    /// Number of direct sub-groups of group `g`.
    pub fn group_count(&self, g: usize) -> (r: usize)
        requires
            self.valid_group(g as int),
        ensures
            r == self.groups[g as int].children.len(),
    {
        self.groups[g].children.len()
    }

    /// The name of group `g`.
    pub fn group_name(&self, g: usize) -> (r: String)
        requires
            self.valid_group(g as int),
        ensures
            r@ == self.groups[g as int].name@,
    {
        self.groups[g].name.clone()
    }

    /// The names of the direct sub-groups of `g`, as the group menu lists them.
    pub fn group_names(&self, g: usize) -> (r: Vec<String>)
        requires
            self.wf(),
            self.valid_group(g as int),
        ensures
            r@.map_values(|s: String| s@) == self.child_names(g as int),
    {
        let children = &self.groups[g].children;
        let mut r: Vec<String> = Vec::new();
        for k in 0..children.len()
            invariant
                self.wf(),
                self.valid_group(g as int),
                children == self.groups[g as int].children,
                r.len() == k,
                forall|j: int| 0 <= j < k ==> #[trigger] r[j]@ == self.child_names(g as int)[j],
        {
            let c = children[k];
            r.push(self.groups[c].name.clone());
        }
        assert(r@.map_values(|s: String| s@) =~= self.child_names(g as int));
        r
    }

    /// The titles of the direct entries of `g`, as the entry menu lists them.
    pub fn entry_titles_of(&self, g: usize) -> (r: Vec<String>)
        requires
            self.wf(),
            self.valid_group(g as int),
        ensures
            r@.map_values(|s: String| s@) == self.entry_titles(g as int),
    {
        let entries = &self.groups[g].entries;
        let mut r: Vec<String> = Vec::new();
        for k in 0..entries.len()
            invariant
                self.wf(),
                self.valid_group(g as int),
                entries == self.groups[g as int].entries,
                r.len() == k,
                forall|j: int| 0 <= j < k ==> #[trigger] r[j]@ == self.entry_titles(g as int)[j],
        {
            let e = entries[k];
            r.push(self.entries[e].title_text());
        }
        assert(r@.map_values(|s: String| s@) =~= self.entry_titles(g as int));
        r
    }
}

} // verus!
