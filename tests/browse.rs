use kdbx_navigator::{matches_title, occurs, to_ascii_lower};
use kdbx_navigator::{Action, Entry, MenuOption, Navigator, Tree, ROOT};

fn entry(title: &str, user: &str, pass: &str) -> Entry {
    Entry {
        title: Some(title.to_string()),
        username: Some(user.to_string()),
        password: Some(pass.to_string()),
        url: None,
    }
}

/// Root with entries GitHub and Gmail, and no sub-group.
fn flat_tree() -> Tree {
    let mut t = Tree::new("Root".to_string());
    t.add_entry(ROOT, entry("GitHub", "octo", "pw1"));
    t.add_entry(ROOT, entry("Gmail", "me", "pw2"));
    t
}

/// Root { Bank; Work { GitLab; Old { Gitea } }; Home { Netflix } }
fn nested_tree() -> (Tree, usize, usize, usize) {
    let mut t = Tree::new("Root".to_string());
    t.add_entry(ROOT, entry("Bank", "b", "p0"));
    let work = t.add_group(ROOT, "Work".to_string());
    let home = t.add_group(ROOT, "Home".to_string());
    let old = t.add_group(work, "Old".to_string());
    t.add_entry(work, entry("GitLab", "w", "p1"));
    t.add_entry(old, entry("Gitea", "o", "p2"));
    t.add_entry(home, entry("Netflix", "h", "p3"));
    (t, work, home, old)
}

fn titles(t: &Tree, found: &[usize]) -> Vec<String> {
    found.iter().map(|&e| t.entry(e).title_text()).collect()
}

fn matches_of(t: &Tree, nav: &Navigator, term: &str) -> Vec<String> {
    match nav.search(t, Some(term.to_string())) {
        Action::ShowMatches(found) => titles(t, &found),
        _ => panic!("a search term must list matches"),
    }
}

#[test]
fn menu_without_subgroups() {
    let t = flat_tree();
    let menu = t.menu(ROOT);
    assert_eq!(
        menu,
        vec![
            MenuOption::SelectEntry,
            MenuOption::SearchEntry,
            MenuOption::BackToPrevious,
            MenuOption::Quit
        ]
    );
    let labels: Vec<&str> = menu.iter().map(|o| o.label()).collect();
    assert_eq!(labels, vec!["Select an entry", "Search an entry", "Back to previous", "Quit"]);
}

#[test]
fn menu_of_empty_group() {
    let t = Tree::new("Root".to_string());
    assert_eq!(
        t.menu(ROOT),
        vec![MenuOption::SearchEntry, MenuOption::BackToPrevious, MenuOption::Quit]
    );
}

#[test]
fn menu_with_groups_and_entries() {
    let (t, work, home, old) = nested_tree();
    assert_eq!(t.menu(ROOT)[0], MenuOption::SelectGroup);
    assert_eq!(t.menu(ROOT)[1], MenuOption::SelectEntry);
    assert_eq!(t.menu(ROOT).len(), 5);
    assert_eq!(t.menu(work).len(), 5);
    assert_eq!(t.menu(home)[0], MenuOption::SelectEntry);
    assert_eq!(t.menu(old).len(), 4);
    assert_eq!(MenuOption::SelectGroup.label(), "Select a group");
}

#[test]
fn counts_and_names() {
    let (t, work, _, _) = nested_tree();
    assert_eq!(t.group_count(ROOT), 2);
    assert_eq!(t.entry_count(ROOT), 1);
    assert_eq!(t.group_name(work), "Work");
    assert_eq!(t.group_names(ROOT), vec!["Work".to_string(), "Home".to_string()]);
    assert_eq!(t.entry_titles_of(work), vec!["GitLab".to_string()]);
}

#[test]
fn search_ignores_case() {
    let t = flat_tree();
    let nav = Navigator::new();
    assert_eq!(matches_of(&t, &nav, "git"), vec!["GitHub"]);
    assert_eq!(matches_of(&t, &nav, "GIT"), vec!["GitHub"]);
    assert_eq!(matches_of(&t, &nav, "xyz"), Vec::<String>::new());
}

#[test]
fn search_empty_term_lists_subtree_in_preorder() {
    let (t, _, _, _) = nested_tree();
    let nav = Navigator::new();
    assert_eq!(matches_of(&t, &nav, ""), vec!["Bank", "GitLab", "Gitea", "Netflix"]);
}

#[test]
fn search_starts_at_current_group() {
    let (t, work, _, _) = nested_tree();
    assert_eq!(titles(&t, &t.search(work, "GIT")), vec!["GitLab", "Gitea"]);
    assert_eq!(titles(&t, &t.search(work, "bank")), Vec::<String>::new());
}

#[test]
fn search_on_title_only() {
    let mut t = Tree::new("Root".to_string());
    t.add_entry(ROOT, entry("Mail", "github-user", "github"));
    assert_eq!(t.search(ROOT, "github"), Vec::<usize>::new());
}

#[test]
fn search_prompt_cancelled() {
    let t = flat_tree();
    let nav = Navigator::new();
    assert!(matches!(nav.search(&t, None), Action::ShowMenu));
}

#[test]
fn descend_then_back_returns_to_root() {
    let (t, work, _, _) = nested_tree();
    let mut nav = Navigator::new();
    match nav.select(&t, Some(MenuOption::SelectGroup)) {
        Action::PickGroup(names) => assert_eq!(names, vec!["Work", "Home"]),
        _ => panic!("expected the group prompt"),
    }
    assert!(matches!(nav.pick_group(&t, Some("Work".to_string())), Action::ShowMenu));
    assert_eq!(nav.current(), work);
    assert_eq!(nav.depth(), 1);
    assert!(matches!(nav.select(&t, Some(MenuOption::BackToPrevious)), Action::ShowMenu));
    assert!(!nav.is_ended());
    assert_eq!(nav.current(), ROOT);
}

#[test]
fn back_at_root_ends_session() {
    let t = flat_tree();
    let mut nav = Navigator::new();
    assert!(matches!(nav.select(&t, Some(MenuOption::BackToPrevious)), Action::End));
    assert!(nav.is_ended());
}

#[test]
fn failed_menu_prompt_goes_back() {
    let (t, _, _, old) = nested_tree();
    let mut nav = Navigator::new();
    nav.pick_group(&t, Some("Work".to_string()));
    nav.pick_group(&t, Some("Old".to_string()));
    assert_eq!(nav.current(), old);
    assert!(matches!(nav.select(&t, None), Action::ShowMenu));
    assert_eq!(nav.depth(), 1);
    assert!(matches!(nav.select(&t, None), Action::ShowMenu));
    assert!(matches!(nav.select(&t, None), Action::End));
}

#[test]
fn cancelled_group_prompt_stays() {
    let (t, _, _, _) = nested_tree();
    let mut nav = Navigator::new();
    assert!(matches!(nav.pick_group(&t, None), Action::ShowMenu));
    assert_eq!(nav.current(), ROOT);
    nav.pick_group(&t, Some("Nowhere".to_string()));
    assert_eq!(nav.current(), ROOT);
}

#[test]
fn quit_declined_or_cancelled_keeps_session() {
    let (t, work, _, _) = nested_tree();
    let mut nav = Navigator::new();
    nav.pick_group(&t, Some("Work".to_string()));
    assert!(matches!(nav.select(&t, Some(MenuOption::Quit)), Action::ConfirmQuit));
    assert!(matches!(nav.confirm_quit(&t, Some(false)), Action::ShowMenu));
    assert!(matches!(nav.confirm_quit(&t, None), Action::ShowMenu));
    assert!(!nav.is_ended());
    assert_eq!(nav.current(), work);
}

#[test]
fn quit_confirmed_ends_from_any_depth() {
    let (t, _, _, _) = nested_tree();
    let mut nav = Navigator::new();
    nav.pick_group(&t, Some("Work".to_string()));
    nav.pick_group(&t, Some("Old".to_string()));
    assert_eq!(nav.depth(), 2);
    assert!(matches!(nav.confirm_quit(&t, Some(true)), Action::End));
    assert!(nav.is_ended());
}

#[test]
fn absent_fields_render_empty() {
    let e = Entry { title: None, username: None, password: None, url: None };
    assert_eq!(e.title_text(), "");
    assert_eq!(e.username_text(), "");
    assert_eq!(e.password_text(), "");
    assert_eq!(e.url_text(), "");
    let mut t = Tree::new("Root".to_string());
    t.add_entry(ROOT, e);
    assert_eq!(t.entry_titles_of(ROOT), vec![String::new()]);
    let nav = Navigator::new();
    assert_eq!(matches_of(&t, &nav, ""), vec![""]);
}

#[test]
fn present_fields_render_as_is() {
    let e = Entry {
        title: Some("GitHub".to_string()),
        username: Some("octo".to_string()),
        password: Some("s3cret".to_string()),
        url: Some("https://github.com".to_string()),
    };
    assert_eq!(e.title_text(), "GitHub");
    assert_eq!(e.username_text(), "octo");
    assert_eq!(e.password_text(), "s3cret");
    assert_eq!(e.url_text(), "https://github.com");
}

#[test]
fn entry_pick_shows_first_with_title() {
    let mut t = Tree::new("Root".to_string());
    let first = t.add_entry(ROOT, entry("Twin", "a", "1"));
    t.add_entry(ROOT, entry("Twin", "b", "2"));
    let mut nav = Navigator::new();
    match nav.select(&t, Some(MenuOption::SelectEntry)) {
        Action::PickEntry(list) => assert_eq!(list, vec!["Twin", "Twin"]),
        _ => panic!("expected the entry prompt"),
    }
    match nav.pick_entry(&t, Some("Twin".to_string())) {
        Action::ShowEntry(e) => {
            assert_eq!(e, first);
            assert_eq!(t.entry(e).username_text(), "a");
        }
        _ => panic!("a listed title must resolve"),
    }
    assert!(matches!(nav.pick_entry(&t, Some("None".to_string())), Action::ShowMenu));
    assert!(matches!(nav.pick_entry(&t, None), Action::ShowMenu));
}

#[test]
fn duplicate_group_names_resolve_to_first() {
    let mut t = Tree::new("Root".to_string());
    let a = t.add_group(ROOT, "Dup".to_string());
    let b = t.add_group(ROOT, "Dup".to_string());
    assert_ne!(a, b);
    assert_eq!(t.find_group(ROOT, &"Dup".to_string()), Some(a));
    assert_eq!(t.find_group(ROOT, &"dup".to_string()), None);
    let mut nav = Navigator::new();
    nav.pick_group(&t, Some("Dup".to_string()));
    assert_eq!(nav.current(), a);
}

#[test]
fn find_entry_by_title() {
    let t = flat_tree();
    assert_eq!(t.find_entry(ROOT, &"Gmail".to_string()), Some(1));
    assert_eq!(t.find_entry(ROOT, &"gmail".to_string()), None);
}

#[test]
fn search_and_quit_prompts_are_asked() {
    let t = flat_tree();
    let mut nav = Navigator::new();
    assert!(matches!(nav.select(&t, Some(MenuOption::SearchEntry)), Action::AskSearchTerm));
    assert!(!nav.is_ended());
}

#[test]
fn ascii_lowering() {
    assert_eq!(to_ascii_lower("GitHub Z-9"), "github z-9".chars().collect::<Vec<char>>());
    assert_eq!(to_ascii_lower("ÉCOLE"), vec!['É', 'c', 'o', 'l', 'e']);
    assert_eq!(to_ascii_lower(""), Vec::<char>::new());
}

#[test]
fn substring_occurrence() {
    let hay: Vec<char> = "github".chars().collect();
    assert!(occurs(&"hub".chars().collect(), &hay));
    assert!(occurs(&Vec::new(), &hay));
    assert!(occurs(&hay.clone(), &hay));
    assert!(!occurs(&"hubs".chars().collect(), &hay));
    assert!(!occurs(&"gh".chars().collect(), &hay));
    assert!(!occurs(&"x".chars().collect(), &Vec::new()));
}

#[test]
fn title_matching() {
    assert!(matches_title("GitHub", "git"));
    assert!(matches_title("GitHub", "HUB"));
    assert!(matches_title("GitHub", ""));
    assert!(!matches_title("GitHub", "xyz"));
    assert!(!matches_title("", "a"));
}

#[test]
fn tree_building() {
    let (t, work, home, old) = nested_tree();
    assert_eq!((work, home, old), (1, 2, 3));
    assert_eq!(t.group_names(work), vec!["Old".to_string()]);
    assert_eq!(t.entry_count(old), 1);
    assert_eq!(t.group_count(old), 0);
}
