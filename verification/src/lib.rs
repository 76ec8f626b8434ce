//! Core of a lore retrieval engine: it ingests a hierarchically structured
//! JSON corpus of narrative world-building entities and answers natural
//! language queries with the most relevant entries, filtered by the entity
//! kind the query implies.
//!
//! The verified library holds the data model, the recursive extraction of
//! items from a JSON tree, the query intent classifier and the formatting of
//! retrieval results.  The embedding encoder and the approximate
//! nearest-neighbour index work on floating point vectors and live outside
//! the verified core; they hand ids and pre-formatted similarity values back
//! into it.

pub mod engine;
pub mod json;
pub mod parser;
pub mod retrieval;
pub mod story;
pub mod text;
pub mod types;

pub use engine::{Corpus, LoreEngineConfig, LoreStats};
pub use json::JsonValue;
pub use story::{generate, get_all_availables_lore, get_lore_titles, Action, Lore, Prompt};
pub use types::{detect_item_type_from_query, Item, ItemType};
