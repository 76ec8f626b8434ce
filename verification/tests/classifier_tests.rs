//! Tests of the query intent classifier.

use lore_rag::types::{detect_item_type_from_query, ItemType};

#[test]
fn french_character_query_detects_character() {
    assert_eq!(
        detect_item_type_from_query("Quels sont les personnages importants ?"),
        Some(ItemType::Character)
    );
}

#[test]
fn region_wins_over_world_by_priority() {
    // the query names both a region keyword and a world keyword; the region
    // group is tried first
    assert_eq!(
        detect_item_type_from_query("Décris-moi les régions du monde."),
        Some(ItemType::Region)
    );
}

#[test]
fn character_wins_over_every_later_group() {
    assert_eq!(
        detect_item_type_from_query("le roi de la ville du royaume pendant la guerre"),
        Some(ItemType::Character)
    );
}

#[test]
fn query_without_keywords_detects_nothing() {
    assert_eq!(detect_item_type_from_query("tell me a story"), None);
}

#[test]
fn classification_is_case_insensitive() {
    assert_eq!(detect_item_type_from_query("PERSONNAGE"), Some(ItemType::Character));
    assert_eq!(detect_item_type_from_query("World"), Some(ItemType::World));
}

#[test]
fn one_keyword_of_each_group_is_enough() {
    assert_eq!(detect_item_type_from_query("sultan"), Some(ItemType::Character));
    assert_eq!(detect_item_type_from_query("forteresse"), Some(ItemType::Location));
    assert_eq!(detect_item_type_from_query("territoire"), Some(ItemType::Region));
    assert_eq!(detect_item_type_from_query("bataille"), Some(ItemType::Event));
    assert_eq!(detect_item_type_from_query("guilde"), Some(ItemType::Faction));
    assert_eq!(detect_item_type_from_query("univers"), Some(ItemType::World));
}

#[test]
fn keywords_match_as_substrings() {
    assert_eq!(detect_item_type_from_query("l'archimagerie"), Some(ItemType::Character));
}

#[test]
fn classification_is_idempotent() {
    let queries =
        ["Quels sont les personnages importants ?", "tell me a story", "région du monde"];
    for q in queries {
        assert_eq!(detect_item_type_from_query(q), detect_item_type_from_query(q));
    }
}

#[test]
fn from_key_maps_the_six_container_keys() {
    assert_eq!(ItemType::from_key("worlds"), ItemType::World);
    assert_eq!(ItemType::from_key("regions"), ItemType::Region);
    assert_eq!(ItemType::from_key("locations"), ItemType::Location);
    assert_eq!(ItemType::from_key("characters"), ItemType::Character);
    assert_eq!(ItemType::from_key("events"), ItemType::Event);
    assert_eq!(ItemType::from_key("factions"), ItemType::Faction);
    assert_eq!(ItemType::from_key("npcs"), ItemType::Unknown);
}

#[test]
fn as_str_names_each_kind() {
    assert_eq!(ItemType::World.as_str(), "World");
    assert_eq!(ItemType::Region.as_str(), "Region");
    assert_eq!(ItemType::Location.as_str(), "Location");
    assert_eq!(ItemType::Character.as_str(), "Character");
    assert_eq!(ItemType::Event.as_str(), "Event");
    assert_eq!(ItemType::Faction.as_str(), "Faction");
    assert_eq!(ItemType::Unknown.as_str(), "Unknown");
}
