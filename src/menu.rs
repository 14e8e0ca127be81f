use vstd::prelude::*;
use crate::model::Tree;

verus! {

/// One action of a group screen's menu.
#[derive(Clone, Copy, PartialEq, Eq, Debug, Structural)]
pub enum MenuOption {
    SelectGroup,
    SelectEntry,
    SearchEntry,
    BackToPrevious,
    Quit,
}

impl MenuOption {
    pub open spec fn label_spec(self) -> Seq<char> {
        match self {
            MenuOption::SelectGroup => "Select a group"@,
            MenuOption::SelectEntry => "Select an entry"@,
            MenuOption::SearchEntry => "Search an entry"@,
            MenuOption::BackToPrevious => "Back to previous"@,
            MenuOption::Quit => "Quit"@,
        }
    }

    /// The text shown for this option.
    pub fn label(&self) -> (r: &'static str)
        ensures
            r@ == self.label_spec(),
    {
        match self {
            MenuOption::SelectGroup => "Select a group",
            MenuOption::SelectEntry => "Select an entry",
            MenuOption::SearchEntry => "Search an entry",
            MenuOption::BackToPrevious => "Back to previous",
            MenuOption::Quit => "Quit",
        }
    }
}

/// The menu of the screen of group `g`: selecting a sub-group only when
/// there is one, selecting an entry only when there is one, then search,
/// back and quit.
pub open spec fn menu_spec(t: Tree, g: int) -> Seq<MenuOption> {
    (if t.groups[g].children.len() > 0 {
        seq![MenuOption::SelectGroup]
    } else {
        Seq::empty()
    }) + (if t.groups[g].entries.len() > 0 {
        seq![MenuOption::SelectEntry]
    } else {
        Seq::empty()
    }) + seq![MenuOption::SearchEntry, MenuOption::BackToPrevious, MenuOption::Quit]
}

/// The menu of every group offers a sub-group exactly when the group has one
/// and an entry exactly when it has one; search, back and quit are always
/// offered.
pub proof fn lemma_menu_offers(t: Tree, g: int)
    ensures
        menu_spec(t, g).contains(MenuOption::SelectGroup) <==> t.groups[g].children.len() > 0,
        menu_spec(t, g).contains(MenuOption::SelectEntry) <==> t.groups[g].entries.len() > 0,
        menu_spec(t, g).contains(MenuOption::SearchEntry),
        menu_spec(t, g).contains(MenuOption::BackToPrevious),
        menu_spec(t, g).contains(MenuOption::Quit),
{
    let m = menu_spec(t, g);
    let n = m.len() - 3;
    assert(m[n] == MenuOption::SearchEntry);
    assert(m[n + 1] == MenuOption::BackToPrevious);
    assert(m[n + 2] == MenuOption::Quit);
    if t.groups[g].children.len() > 0 {
        assert(m[0] == MenuOption::SelectGroup);
    }
    if t.groups[g].entries.len() > 0 {
        if t.groups[g].children.len() > 0 {
            assert(m[1] == MenuOption::SelectEntry);
        } else {
            assert(m[0] == MenuOption::SelectEntry);
        }
    }
}

impl Tree {
    /// The menu of the screen of group `g`, in display order.
    pub fn menu(&self, g: usize) -> (r: Vec<MenuOption>)
        requires
            self.valid_group(g as int),
        ensures
            r@ == menu_spec(*self, g as int),
    {
        let mut r: Vec<MenuOption> = Vec::new();
        if self.group_count(g) > 0 {
            r.push(MenuOption::SelectGroup);
        }
        if self.entry_count(g) > 0 {
            r.push(MenuOption::SelectEntry);
        }
        r.push(MenuOption::SearchEntry);
        r.push(MenuOption::BackToPrevious);
        r.push(MenuOption::Quit);
        assert(r@ =~= menu_spec(*self, g as int));
        r
    }
}

} // verus!
