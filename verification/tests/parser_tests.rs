//! Tests of corpus extraction from JSON trees.

use lore_rag::engine::{embedding_error_message, not_loaded_message, Corpus};
use lore_rag::json::JsonValue;
use lore_rag::types::ItemType;
use lore_rag::LoreEngineConfig;

fn obj(fields: Vec<(&str, JsonValue)>) -> JsonValue {
    JsonValue::Object(fields.into_iter().map(|(k, v)| (k.to_string(), v)).collect())
}

fn s(text: &str) -> JsonValue {
    JsonValue::Str(text.to_string())
}

/// The three-level example: a world with a region holding a character.
fn sample_world() -> JsonValue {
    obj(vec![(
        "worlds",
        JsonValue::Array(vec![obj(vec![
            ("name", s("Aerda")),
            ("description", s("a flat world")),
            (
                "regions",
                JsonValue::Array(vec![obj(vec![
                    ("name", s("North")),
                    (
                        "characters",
                        JsonValue::Array(vec![obj(vec![
                            ("name", s("Arion")),
                            ("description", s("king")),
                        ])]),
                    ),
                ])]),
            ),
        ])]),
    )])
}

#[test]
fn extracts_hierarchy_with_kinds_paths_and_depths() {
    let corpus = Corpus::from_json(&sample_world()).unwrap();
    let items = corpus.items();
    assert_eq!(items.len(), 3);

    assert_eq!(items[0].id, 0);
    assert_eq!(items[0].name, "Aerda");
    assert_eq!(items[0].text, "Aerda: a flat world");
    assert_eq!(items[0].item_type, ItemType::World);
    assert_eq!(items[0].parent_path, "");
    assert_eq!(items[0].hierarchy_level, 0);

    assert_eq!(items[1].id, 1);
    assert_eq!(items[1].name, "North");
    assert_eq!(items[1].text, "North");
    assert_eq!(items[1].item_type, ItemType::Region);
    assert_eq!(items[1].parent_path, "Aerda");
    assert_eq!(items[1].hierarchy_level, 1);

    assert_eq!(items[2].id, 2);
    assert_eq!(items[2].name, "Arion");
    assert_eq!(items[2].text, "Arion: king");
    assert_eq!(items[2].item_type, ItemType::Character);
    assert_eq!(items[2].parent_path, "Aerda > North");
    assert_eq!(items[2].hierarchy_level, 2);
}

#[test]
fn characters_at_root_share_kind_and_depth() {
    let tree = obj(vec![(
        "characters",
        JsonValue::Array(vec![obj(vec![("name", s("X"))]), obj(vec![("name", s("Y"))])]),
    )]);
    let corpus = Corpus::from_json(&tree).unwrap();
    let items = corpus.items();
    assert_eq!(items.len(), 2);
    assert_eq!(items[0].id, 0);
    assert_eq!(items[0].name, "X");
    assert_eq!(items[1].id, 1);
    assert_eq!(items[1].name, "Y");
    for it in items.iter() {
        assert_eq!(it.item_type, ItemType::Character);
        assert_eq!(it.parent_path, "");
        assert_eq!(it.hierarchy_level, 0);
        // no description: the text is the name alone
        assert_eq!(it.text, it.name);
    }
}

#[test]
fn scalar_only_object_is_an_empty_corpus() {
    let tree = obj(vec![("a", JsonValue::Number("1".to_string()))]);
    let err = Corpus::from_json(&tree).unwrap_err();
    assert_eq!(err, "No items found in JSON. Ensure objects have a 'name' field.");
}

#[test]
fn empty_object_and_empty_array_are_empty_corpora() {
    let err = Corpus::from_json(&obj(vec![])).unwrap_err();
    assert_eq!(err, "No items found in JSON. Ensure objects have a 'name' field.");
    let err = Corpus::from_json(&JsonValue::Array(vec![])).unwrap_err();
    assert_eq!(err, "No items found in JSON. Ensure objects have a 'name' field.");
}

#[test]
fn non_string_name_is_rejected() {
    let tree = obj(vec![(
        "characters",
        JsonValue::Array(vec![obj(vec![("name", JsonValue::Number("5".to_string()))])]),
    )]);
    let err = Corpus::from_json(&tree).unwrap_err();
    assert_eq!(err, "The 'name' field must be a string");
}

#[test]
fn name_collision_with_ancestor_is_permitted() {
    let tree = obj(vec![(
        "worlds",
        JsonValue::Array(vec![obj(vec![
            ("name", s("Aerda")),
            ("regions", JsonValue::Array(vec![obj(vec![("name", s("Aerda"))])])),
        ])]),
    )]);
    let corpus = Corpus::from_json(&tree).unwrap();
    let items = corpus.items();
    assert_eq!(items.len(), 2);
    assert_eq!(items[1].name, "Aerda");
    assert_eq!(items[1].parent_path, "Aerda");
}

#[test]
fn entity_under_unrecognized_key_inherits_kind() {
    // an entity lurking under an unrecognized key is still emitted, with the
    // inherited kind, which at the root is Unknown
    let tree = obj(vec![("name", s("Root")), ("characters", obj(vec![("name", s("Held"))]))]);
    let corpus = Corpus::from_json(&tree).unwrap();
    let items = corpus.items();
    assert_eq!(items.len(), 2);
    assert_eq!(items[0].item_type, ItemType::Unknown);
    assert_eq!(items[1].item_type, ItemType::Character);
    assert_eq!(items[1].parent_path, "Root");
}

#[test]
fn loading_twice_yields_identical_corpora() {
    let c1 = Corpus::from_json(&sample_world()).unwrap();
    let c2 = Corpus::from_json(&sample_world()).unwrap();
    let (i1, i2) = (c1.items(), c2.items());
    assert_eq!(i1.len(), i2.len());
    for k in 0..i1.len() {
        assert_eq!(i1[k].id, i2[k].id);
        assert_eq!(i1[k].name, i2[k].name);
        assert_eq!(i1[k].text, i2[k].text);
        assert_eq!(i1[k].item_type, i2[k].item_type);
        assert_eq!(i1[k].parent_path, i2[k].parent_path);
        assert_eq!(i1[k].hierarchy_level, i2[k].hierarchy_level);
    }
}

#[test]
fn depth_counts_path_segments() {
    let corpus = Corpus::from_json(&sample_world()).unwrap();
    for it in corpus.items().iter() {
        let segments = if it.parent_path.is_empty() {
            0
        } else {
            it.parent_path.matches(" > ").count() + 1
        };
        assert_eq!(it.hierarchy_level, segments);
    }
}

#[test]
fn corpus_len_counts_items() {
    let corpus = Corpus::from_json(&sample_world()).unwrap();
    assert_eq!(corpus.len(), 3);
}

#[test]
fn fixed_messages_are_worded_as_documented() {
    assert_eq!(not_loaded_message(), "No index loaded. Call load_from_file() first.");
    assert_eq!(
        embedding_error_message("Arion", "tensor shape mismatch"),
        "Error embedding 'Arion': tensor shape mismatch"
    );
}

#[test]
fn default_config_uses_the_documented_parameters() {
    let config = LoreEngineConfig::default();
    assert_eq!(config.hnsw_max_nb_conn, 16);
    assert_eq!(config.hnsw_max_layer, 16);
    assert_eq!(config.hnsw_ef_construction, 200);
}

#[test]
fn stats_count_each_kind_once() {
    let corpus = Corpus::from_json(&sample_world()).unwrap();
    let stats = corpus.stats();
    assert_eq!(stats.total_items, 3);
    let sum: usize = stats.type_counts.iter().map(|(_, c)| *c).sum();
    assert_eq!(sum, 3);
    assert_eq!(stats.type_counts.len(), 3);
    assert!(stats.type_counts.contains(&("World".to_string(), 1)));
    assert!(stats.type_counts.contains(&("Region".to_string(), 1)));
    assert!(stats.type_counts.contains(&("Character".to_string(), 1)));
}
