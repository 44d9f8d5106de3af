//! What an accepted run hands back to the caller.

use vstd::prelude::*;
use crate::item::Item;

verus! {

/// The output record of an accepted run: the accept key (if one was bound),
/// the final filter query, the final command query, and the selected items.
pub struct SkimOutput {
    pub accept_key: Option<String>,
    pub query: String,
    pub cmd: String,
    pub selected_items: Vec<Item>,
}

} // verus!
