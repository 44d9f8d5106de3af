//! Core of an interactive fuzzy line selector: an item pool fed by a reader,
//! a matcher that filters the pool against the typed query, a selection with
//! cursor and multi-select, and the event-loop model that coordinates them.

pub mod event;
pub mod header;
pub mod item;
pub mod layout;
pub mod matcher;
pub mod model;
pub mod output;
pub mod query;
pub mod selection;
pub mod status;
pub mod text;

pub use item::Item;
pub use item::ItemPool;
