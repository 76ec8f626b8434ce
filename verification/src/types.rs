//! Core data types: the kind tag of a lore element, the lore item itself and
//! the query intent classifier.

use vstd::prelude::*;
use crate::text::{lower_of, spec_contains, str_contains, to_lowercase_string};

verus! {

/// Type of lore element (enables filtering and organization)
#[derive(Clone, Copy, Debug, PartialEq, Eq, Structural)]
pub enum ItemType {
    World,
    Region,
    Location,
    Character,
    Event,
    Faction,
    Unknown,
}

impl ItemType {
    /// The kind a recognized container key maps to; every other key maps to
    /// `Unknown`.
    pub open spec fn spec_from_key(key: Seq<char>) -> ItemType {
        if key == "worlds"@ {
            ItemType::World
        } else if key == "regions"@ {
            ItemType::Region
        } else if key == "locations"@ {
            ItemType::Location
        } else if key == "characters"@ {
            ItemType::Character
        } else if key == "events"@ {
            ItemType::Event
        } else if key == "factions"@ {
            ItemType::Faction
        } else {
            ItemType::Unknown
        }
    }

    /// Converts a JSON key to an item type
    pub fn from_key(key: &str) -> (t: ItemType)
        ensures
            t == ItemType::spec_from_key(key@),
    {
        if crate::text::str_eq(key, "worlds") {
            ItemType::World
        } else if crate::text::str_eq(key, "regions") {
            ItemType::Region
        } else if crate::text::str_eq(key, "locations") {
            ItemType::Location
        } else if crate::text::str_eq(key, "characters") {
            ItemType::Character
        } else if crate::text::str_eq(key, "events") {
            ItemType::Event
        } else if crate::text::str_eq(key, "factions") {
            ItemType::Faction
        } else {
            ItemType::Unknown
        }
    }

    /// The textual representation of each kind tag.
    pub open spec fn spec_as_str(self) -> Seq<char> {
        match self {
            ItemType::World => "World"@,
            ItemType::Region => "Region"@,
            ItemType::Location => "Location"@,
            ItemType::Character => "Character"@,
            ItemType::Event => "Event"@,
            ItemType::Faction => "Faction"@,
            ItemType::Unknown => "Unknown"@,
        }
    }

    /// Returns the textual representation of the type
    pub fn as_str(&self) -> (s: &str)
        ensures
            s@ == self.spec_as_str(),
    {
        match self {
            ItemType::World => "World",
            ItemType::Region => "Region",
            ItemType::Location => "Location",
            ItemType::Character => "Character",
            ItemType::Event => "Event",
            ItemType::Faction => "Faction",
            ItemType::Unknown => "Unknown",
        }
    }
}

/// A keyword of the character group occurs in the query.
pub open spec fn matches_character(q: Seq<char>) -> bool {
    ||| spec_contains(q, "personnage"@)
    ||| spec_contains(q, "character"@)
    ||| spec_contains(q, "héros"@)
    ||| spec_contains(q, "roi"@)
    ||| spec_contains(q, "reine"@)
    ||| spec_contains(q, "empereur"@)
    ||| spec_contains(q, "sultan"@)
    ||| spec_contains(q, "archimage"@)
}

/// A keyword of the location group occurs in the query.
pub open spec fn matches_location(q: Seq<char>) -> bool {
    ||| spec_contains(q, "lieu"@)
    ||| spec_contains(q, "location"@)
    ||| spec_contains(q, "endroit"@)
    ||| spec_contains(q, "cité"@)
    ||| spec_contains(q, "ville"@)
    ||| spec_contains(q, "village"@)
    ||| spec_contains(q, "forteresse"@)
}

/// A keyword of the region group occurs in the query.
pub open spec fn matches_region(q: Seq<char>) -> bool {
    ||| spec_contains(q, "région"@)
    ||| spec_contains(q, "region"@)
    ||| spec_contains(q, "royaume"@)
    ||| spec_contains(q, "empire"@)
    ||| spec_contains(q, "territoire"@)
}

/// A keyword of the event group occurs in the query.
pub open spec fn matches_event(q: Seq<char>) -> bool {
    ||| spec_contains(q, "événement"@)
    ||| spec_contains(q, "event"@)
    ||| spec_contains(q, "quand"@)
    ||| spec_contains(q, "guerre"@)
    ||| spec_contains(q, "bataille"@)
    ||| spec_contains(q, "conflit"@)
    ||| spec_contains(q, "histoire"@)
}

/// A keyword of the faction group occurs in the query.
pub open spec fn matches_faction(q: Seq<char>) -> bool {
    ||| spec_contains(q, "faction"@)
    ||| spec_contains(q, "guilde"@)
    ||| spec_contains(q, "organisation"@)
    ||| spec_contains(q, "ordre"@)
}

/// A keyword of the world group occurs in the query.
pub open spec fn matches_world(q: Seq<char>) -> bool {
    ||| spec_contains(q, "monde"@)
    ||| spec_contains(q, "world"@)
    ||| spec_contains(q, "univers"@)
}

/// The intent of a lowercased query: the first keyword group, in the fixed
/// priority order character, location, region, event, faction, world, that
/// has a keyword occurring in the query as a substring.
pub open spec fn spec_classify(q: Seq<char>) -> Option<ItemType> {
    if matches_character(q) {
        Some(ItemType::Character)
    } else if matches_location(q) {
        Some(ItemType::Location)
    } else if matches_region(q) {
        Some(ItemType::Region)
    } else if matches_event(q) {
        Some(ItemType::Event)
    } else if matches_faction(q) {
        Some(ItemType::Faction)
    } else if matches_world(q) {
        Some(ItemType::World)
    } else {
        None
    }
}

/// Detects the type of element being searched for from a text query.
///
/// The query is lowercased and then tested against six bilingual keyword
/// groups in a fixed priority order; the first group with a keyword occurring
/// as a substring wins, and a query matching no group yields `None`.
pub fn detect_item_type_from_query(query: &str) -> (r: Option<ItemType>)
    ensures
        r == spec_classify(lower_of(query@)),
{
    let lowered = to_lowercase_string(query);
    let q = lowered.as_str();
    if str_contains(q, "personnage") || str_contains(q, "character") || str_contains(q, "héros")
        || str_contains(q, "roi") || str_contains(q, "reine") || str_contains(q, "empereur")
        || str_contains(q, "sultan") || str_contains(q, "archimage") {
        return Some(ItemType::Character);
    }
    if str_contains(q, "lieu") || str_contains(q, "location") || str_contains(q, "endroit")
        || str_contains(q, "cité") || str_contains(q, "ville") || str_contains(q, "village")
        || str_contains(q, "forteresse") {
        return Some(ItemType::Location);
    }
    if str_contains(q, "région") || str_contains(q, "region") || str_contains(q, "royaume")
        || str_contains(q, "empire") || str_contains(q, "territoire") {
        return Some(ItemType::Region);
    }
    if str_contains(q, "événement") || str_contains(q, "event") || str_contains(q, "quand")
        || str_contains(q, "guerre") || str_contains(q, "bataille") || str_contains(q, "conflit")
        || str_contains(q, "histoire") {
        return Some(ItemType::Event);
    }
    if str_contains(q, "faction") || str_contains(q, "guilde") || str_contains(q, "organisation")
        || str_contains(q, "ordre") {
        return Some(ItemType::Faction);
    }
    if str_contains(q, "monde") || str_contains(q, "world") || str_contains(q, "univers") {
        return Some(ItemType::World);
    }
    None
}

/// The intent classifier is pure and idempotent: its result is a function of
/// the query text alone, so two classifications of the same query agree.
pub proof fn lemma_classify_deterministic(q: Seq<char>, r1: Option<ItemType>, r2: Option<ItemType>)
    requires
        r1 == spec_classify(lower_of(q)),
        r2 == spec_classify(lower_of(q)),
    ensures
        r1 == r2,
{
}

/// Represents a lore element with its hierarchical metadata.  The embedding
/// vector of an item is floating point data; it lives beside the index,
/// outside the verified core, keyed by the item's id.
#[derive(Debug)]
pub struct Item {
    pub id: usize,
    pub name: String,
    pub text: String,
    /// Type of element (world, character, location, etc.)
    pub item_type: ItemType,
    /// Full hierarchical path (e.g., "World1 > Northern Region > City")
    pub parent_path: String,
    /// Level in the hierarchy (0 = root, 1 = direct child, etc.)
    pub hierarchy_level: usize,
}

/// What an item's fields denote: its textual fields as character sequences.
pub ghost struct ItemModel {
    pub name: Seq<char>,
    pub text: Seq<char>,
    pub kind: ItemType,
    pub parent_path: Seq<char>,
    pub depth: nat,
}

impl View for Item {
    type V = ItemModel;

    open spec fn view(&self) -> ItemModel {
        ItemModel {
            name: self.name@,
            text: self.text@,
            kind: self.item_type,
            parent_path: self.parent_path@,
            depth: self.hierarchy_level as nat,
        }
    }
}

impl DeepView for Item {
    type V = ItemModel;

    open spec fn deep_view(&self) -> ItemModel {
        self.view()
    }
}

/// The line an item is shown as: its kind in brackets, its name, its ancestor
/// path when it has one, and its text.
pub open spec fn spec_display(m: ItemModel) -> Seq<char> {
    if m.parent_path.len() == 0 {
        "["@ + m.kind.spec_as_str() + "] "@ + m.name + " : "@ + m.text
    } else {
        "["@ + m.kind.spec_as_str() + "] "@ + m.name + " (in '"@ + m.parent_path + "') : "@
            + m.text
    }
}

impl Item {
    /// Creates a new item
    pub fn new(
        id: usize,
        name: String,
        text: String,
        item_type: ItemType,
        parent_path: String,
        hierarchy_level: usize,
    ) -> (it: Item)
        ensures
            it.id == id,
            it@ == (ItemModel {
                name: name@,
                text: text@,
                kind: item_type,
                parent_path: parent_path@,
                depth: hierarchy_level as nat,
            }),
    {
        Item { id, name, text, item_type, parent_path, hierarchy_level }
    }

    /// Displays the item with its hierarchical context
    pub fn display(&self) -> (r: String)
        ensures
            r@ == spec_display(self@),
    {
        let mut r = String::new();
        r.append("[");
        r.append(self.item_type.as_str());
        r.append("] ");
        r.append(self.name.as_str());
        if self.parent_path.as_str().is_empty() {
            r.append(" : ");
        } else {
            r.append(" (in '");
            r.append(self.parent_path.as_str());
            r.append("') : ");
        }
        r.append(self.text.as_str());
        proof {
            assert(r@ =~= spec_display(self@));
        }
        r
    }
}

} // verus!
