use vstd::prelude::*;
use crate::lookup::{resolve_entry, resolve_group};
use crate::menu::MenuOption;
use crate::model::{Tree, ROOT};
use crate::search::search_spec;

verus! {

/// What the front end is to do next.
pub enum Action {
    /// Draw the screen of the current group and ask for a menu option.
    ShowMenu,
    /// Ask the user to pick one of these sub-group names.
    PickGroup(Vec<String>),
    /// Ask the user to pick one of these entry titles.
    PickEntry(Vec<String>),
    /// Show this entry's title, username and password, wait for a key, then
    /// draw the menu again.
    ShowEntry(usize),
    /// Ask for a search term.
    AskSearchTerm,
    /// Show these entries with their url too, wait for a key, then draw the
    /// menu again.
    ShowMatches(Vec<usize>),
    /// Ask whether to quit; the default answer is no.
    ConfirmQuit,
    /// The session is over.
    End,
}

/// The state of a browsing session: the path of groups from the root to the
/// group on screen. A session that has ended has an empty path.
pub struct Navigator {
    path: Vec<usize>,
}

impl View for Navigator {
    type V = Seq<usize>;

    closed spec fn view(&self) -> Seq<usize> {
        self.path@
    }
}

impl Navigator {
    /// The path starts at the root, holds valid groups, and each group on it
    /// is a sub-group of the one before.
    pub open spec fn wf(&self, t: Tree) -> bool {
        &&& t.wf()
        &&& self@.len() > 0 ==> self@[0] == ROOT
        &&& forall|k: int| 0 <= k < self@.len() ==> #[trigger] t.valid_group(self@[k] as int)
        &&& forall|k: int|
            0 < k < self@.len() ==> t.groups[self@[k - 1] as int].children@.contains(
                #[trigger] self@[k],
            )
    }

    pub open spec fn ended(&self) -> bool {
        self@.len() == 0
    }

    pub open spec fn current_spec(&self) -> usize {
        self@.last()
    }

    /// A session on the root group.
    pub fn new() -> (n: Navigator)
        ensures
            n@ == seq![ROOT],
    {
        let mut path: Vec<usize> = Vec::new();
        path.push(ROOT);
        let n = Navigator { path };
        assert(n@ =~= seq![ROOT]);
        n
    }

    pub fn is_ended(&self) -> (r: bool)
        ensures
            r == self.ended(),
    {
        self.path.len() == 0
    }

    /// The group on screen.
    pub fn current(&self) -> (r: usize)
        requires
            !self.ended(),
        ensures
            r == self.current_spec(),
    {
        self.path[self.path.len() - 1]
    }

    /// How many groups lie above the one on screen.
    pub fn depth(&self) -> (r: usize)
        requires
            !self.ended(),
        ensures
            r == self@.len() - 1,
    {
        self.path.len() - 1
    }

    /// Leaves the group on screen: back to its parent, or, at the root, the
    /// end of the session.
    fn back(&mut self, t: &Tree) -> (r: Action)
        requires
            old(self).wf(*t),
            !old(self).ended(),
        ensures
            final(self).wf(*t),
            final(self)@ == old(self)@.drop_last(),
            r is End <==> old(self)@.len() == 1,
            r is ShowMenu <==> old(self)@.len() > 1,
    {
        self.path.pop();
        if self.path.len() == 0 {
            Action::End
        } else {
            Action::ShowMenu
        }
    }

    /// Handles the answer to the menu; `None` is a menu prompt that failed,
    /// which counts as going back.
    pub fn select(&mut self, t: &Tree, choice: Option<MenuOption>) -> (r: Action)
        requires
            old(self).wf(*t),
            !old(self).ended(),
        ensures
            final(self).wf(*t),
            choice == Some(MenuOption::SelectGroup) ==> final(self)@ == old(self)@ && r is PickGroup
                && r->PickGroup_0@.map_values(|s: String| s@) == t.child_names(
                old(self).current_spec() as int,
            ),
            choice == Some(MenuOption::SelectEntry) ==> final(self)@ == old(self)@ && r is PickEntry
                && r->PickEntry_0@.map_values(|s: String| s@) == t.entry_titles(
                old(self).current_spec() as int,
            ),
            choice == Some(MenuOption::SearchEntry) ==> final(self)@ == old(self)@
                && r is AskSearchTerm,
            choice == Some(MenuOption::Quit) ==> final(self)@ == old(self)@ && r is ConfirmQuit,
            choice == Some(MenuOption::BackToPrevious) || choice is None ==> final(self)@ == old(
                self,
            )@.drop_last() && (r is End <==> old(self)@.len() == 1) && (r is ShowMenu <==> old(
                self,
            )@.len() > 1),
    {
        let g = self.current();
        match choice {
            Some(MenuOption::SelectGroup) => Action::PickGroup(t.group_names(g)),
            Some(MenuOption::SelectEntry) => Action::PickEntry(t.entry_titles_of(g)),
            Some(MenuOption::SearchEntry) => Action::AskSearchTerm,
            Some(MenuOption::Quit) => Action::ConfirmQuit,
            _ => self.back(t),
        }
    }

    /// Handles the answer to the sub-group prompt: a picked name opens the
    /// first sub-group of that name; no answer, or a name that no sub-group
    /// carries, stays on the current screen.
    pub fn pick_group(&mut self, t: &Tree, picked: Option<String>) -> (r: Action)
        requires
            old(self).wf(*t),
            !old(self).ended(),
        ensures
            final(self).wf(*t),
            r is ShowMenu,
            match picked {
                Some(name) => match resolve_group(*t, old(self).current_spec() as int, name@) {
                    Some(c) => final(self)@ == old(self)@.push(c),
                    None => final(self)@ == old(self)@,
                },
                None => final(self)@ == old(self)@,
            },
    {
        if let Some(name) = picked {
            let g = self.current();
            if let Some(c) = t.find_group(g, &name) {
                proof {
                    assert(t.valid_group(self@[self@.len() - 1] as int));
                    let s = t.child_names(g as int);
                    crate::lookup::lemma_found_is_listed(s, name@);
                    let k = crate::lookup::first_index(s, name@)->0;
                    assert(s.len() == t.groups[g as int].children.len());
                    assert(t.groups[g as int].children@[k] == c);
                    assert(t.groups[g as int].children@.contains(c));
                    assert(t.groups[g as int].children[k] == c);
                    assert(t.valid_group(c as int));
                }
                let ghost before = self@;
                self.path.push(c);
                proof {
                    assert(self@ == before.push(c));
                    assert forall|k: int| 0 < k < self@.len() implies t.groups[self@[k - 1] as int].children@.contains(
                        #[trigger] self@[k],
                    ) by {
                        if k < self@.len() - 1 {
                            assert(self@[k - 1] == before[k - 1]);
                            assert(self@[k] == before[k]);
                        }
                    }
                }
            }
        }
        Action::ShowMenu
    }

    /// Handles the answer to the entry prompt: a picked title shows the first
    /// direct entry with that title; no answer, or a title that no entry
    /// carries, goes back to the menu.
    pub fn pick_entry(&self, t: &Tree, picked: Option<String>) -> (r: Action)
        requires
            self.wf(*t),
            !self.ended(),
        ensures
            match picked {
                Some(title) => match resolve_entry(*t, self.current_spec() as int, title@) {
                    Some(e) => r == Action::ShowEntry(e),
                    None => r is ShowMenu,
                },
                None => r is ShowMenu,
            },
    {
        if let Some(title) = picked {
            if let Some(e) = t.find_entry(self.current(), &title) {
                return Action::ShowEntry(e);
            }
        }
        Action::ShowMenu
    }

    /// Handles the answer to the search prompt: a term lists the matching
    /// entries of the subtree of the current group; no answer goes back to
    /// the menu.
    pub fn search(&self, t: &Tree, term: Option<String>) -> (r: Action)
        requires
            self.wf(*t),
            !self.ended(),
        ensures
            match term {
                Some(q) => r is ShowMatches && r->ShowMatches_0@ == search_spec(
                    *t,
                    self.current_spec() as int,
                    q@,
                ),
                None => r is ShowMenu,
            },
    {
        match term {
            Some(q) => Action::ShowMatches(t.search(self.current(), q.as_str())),
            None => Action::ShowMenu,
        }
    }

    /// Handles the answer to the quit confirmation: yes ends the session at
    /// any depth; no, or no answer, keeps the session where it is.
    pub fn confirm_quit(&mut self, t: &Tree, answer: Option<bool>) -> (r: Action)
        requires
            old(self).wf(*t),
            !old(self).ended(),
        ensures
            final(self).wf(*t),
            answer == Some(true) ==> r is End && final(self).ended(),
            answer != Some(true) ==> r is ShowMenu && final(self)@ == old(self)@,
    {
        if answer == Some(true) {
            self.path.clear();
            assert(self@ =~= Seq::<usize>::empty());
            Action::End
        } else {
            Action::ShowMenu
        }
    }
}

} // verus!
