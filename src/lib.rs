//! A read-only browser for a decrypted password database: the group tree,
//! the menu of each screen, name resolution, title search and the
//! navigation state machine that a terminal front end drives.

mod lookup;
mod menu;
mod model;
mod navigator;
mod search;

pub use lookup::{
    first_index, lemma_found_is_listed, lemma_listed_entry_resolves, lemma_listed_group_resolves,
    lemma_listed_is_found, resolve_entry, resolve_group,
};
pub use menu::{lemma_menu_offers, menu_spec, MenuOption};
pub use model::{text_of, Entry, GroupNode, Tree, ROOT};
pub use navigator::{Action, Navigator};
pub use search::{
    children_entries, lemma_empty_term_lists_subtree, lemma_search_direct_first,
    lemma_search_ignores_case, lower_char, lower_text, matcher, matches_title, occurs, occurs_in,
    search_spec, subtree_entries, title_matches, to_ascii_lower,
};
