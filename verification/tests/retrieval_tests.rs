//! Tests of result rendering and of retrieval through a real vector index.

use hnsw_rs::prelude::{DistCosine, Hnsw};
use lore_rag::engine::Corpus;
use lore_rag::json::JsonValue;
use lore_rag::retrieval::{render_results, search_breadth};
use lore_rag::types::{detect_item_type_from_query, Item, ItemType};

fn sample_items() -> Vec<Item> {
    vec![
        Item::new(0, "Aerda".to_string(), "Aerda: a flat world".to_string(), ItemType::World, "".to_string(), 0),
        Item::new(1, "North".to_string(), "North".to_string(), ItemType::Region, "Aerda".to_string(), 1),
        Item::new(
            2,
            "Arion".to_string(),
            "Arion: king".to_string(),
            ItemType::Character,
            "Aerda > North".to_string(),
            2,
        ),
    ]
}

#[test]
fn display_formats_with_and_without_path() {
    let items = sample_items();
    assert_eq!(items[0].display(), "[World] Aerda : Aerda: a flat world");
    assert_eq!(items[2].display(), "[Character] Arion (in 'Aerda > North') : Arion: king");
}

#[test]
fn renders_ranked_lines_without_filter() {
    let items = sample_items();
    let hits = vec![(2usize, "0.873".to_string()), (0usize, "0.500".to_string())];
    let out = render_results(&items, &None, &hits, 3);
    assert_eq!(
        out,
        "1. [Character] Arion (in 'Aerda > North') : Arion: king (similarity: 0.873)\n\
         2. [World] Aerda : Aerda: a flat world (similarity: 0.500)\n"
    );
}

#[test]
fn no_filter_means_no_filter_line() {
    let items = sample_items();
    let hits = vec![(0usize, "0.400".to_string())];
    let out = render_results(&items, &None, &hits, 3);
    assert!(!out.contains("Filter:"));
}

#[test]
fn filter_header_and_kind_filtering() {
    let items = sample_items();
    let hits = vec![
        (0usize, "0.900".to_string()),
        (2usize, "0.800".to_string()),
        (1usize, "0.700".to_string()),
    ];
    let out = render_results(&items, &Some(ItemType::Character), &hits, 3);
    assert_eq!(
        out,
        "Filter: Character only\n\n\
         1. [Character] Arion (in 'Aerda > North') : Arion: king (similarity: 0.800)\n"
    );
}

#[test]
fn empty_hits_says_no_relevant_items() {
    let items = sample_items();
    let out = render_results(&items, &None, &vec![], 3);
    assert_eq!(out, "No relevant items found.\n");
    let out = render_results(&items, &Some(ItemType::Event), &vec![], 3);
    assert_eq!(out, "Filter: Event only\n\nNo relevant items found.\n");
}

#[test]
fn filter_that_keeps_nothing_says_so() {
    let items = sample_items();
    let hits = vec![(0usize, "0.900".to_string()), (1usize, "0.800".to_string())];
    let out = render_results(&items, &Some(ItemType::Faction), &hits, 3);
    assert_eq!(out, "Filter: Faction only\n\nNo items of the requested type found.\n");
}

#[test]
fn top_k_larger_than_corpus_returns_all_hits() {
    let items = sample_items();
    let hits = vec![
        (0usize, "0.900".to_string()),
        (1usize, "0.800".to_string()),
        (2usize, "0.700".to_string()),
    ];
    let out = render_results(&items, &None, &hits, 10);
    assert_eq!(out.lines().count(), 3);
}

#[test]
fn truncation_keeps_the_best_ranked() {
    let items = sample_items();
    let hits = vec![
        (1usize, "0.900".to_string()),
        (0usize, "0.800".to_string()),
        (2usize, "0.700".to_string()),
    ];
    let out = render_results(&items, &None, &hits, 2);
    assert_eq!(
        out,
        "1. [Region] North (in 'Aerda') : North (similarity: 0.900)\n\
         2. [World] Aerda : Aerda: a flat world (similarity: 0.800)\n"
    );
}

#[test]
fn unresolvable_ids_are_dropped() {
    let items = sample_items();
    let hits = vec![(9usize, "0.990".to_string()), (0usize, "0.400".to_string())];
    let out = render_results(&items, &None, &hits, 3);
    assert_eq!(out, "1. [World] Aerda : Aerda: a flat world (similarity: 0.400)\n");
}

#[test]
fn search_breadth_triples_only_under_a_filter() {
    assert_eq!(search_breadth(&Some(ItemType::World), 3), 9);
    assert_eq!(search_breadth(&None, 3), 3);
}

fn obj(fields: Vec<(&str, JsonValue)>) -> JsonValue {
    JsonValue::Object(fields.into_iter().map(|(k, v)| (k.to_string(), v)).collect())
}

fn s(text: &str) -> JsonValue {
    JsonValue::Str(text.to_string())
}

/// Builds the corpus of the worked example and a vector index over made-up
/// unit vectors, then runs one query end to end.
#[test]
fn character_query_through_the_index_filters_to_arion() {
    let tree = obj(vec![(
        "worlds",
        JsonValue::Array(vec![obj(vec![
            ("name", s("Aerda")),
            ("description", s("a flat world")),
            (
                "regions",
                JsonValue::Array(vec![obj(vec![
                    ("name", s("North")),
                    (
                        "characters",
                        JsonValue::Array(vec![obj(vec![
                            ("name", s("Arion")),
                            ("description", s("king")),
                        ])]),
                    ),
                ])]),
            ),
        ])]),
    )]);
    let corpus = Corpus::from_json(&tree).unwrap();
    let items = corpus.items();

    // one axis-aligned unit vector per item stands in for its embedding
    let dim = 384usize;
    let mut vecs: Vec<Vec<f32>> = Vec::new();
    for it in items.iter() {
        let mut v = vec![0.0f32; dim];
        v[it.id] = 1.0;
        vecs.push(v);
    }
    let hnsw: Hnsw<f32, DistCosine> = Hnsw::new(16, items.len(), 16, 200, DistCosine {});
    for it in items.iter() {
        hnsw.insert((&vecs[it.id][..], it.id));
    }

    let query = "Quels sont les personnages importants ?";
    let filter = detect_item_type_from_query(query);
    assert_eq!(filter, Some(ItemType::Character));
    let top_k = 3usize;
    let breadth = search_breadth(&filter, top_k);
    // a query vector leaning towards Arion's axis
    let mut qv = vec![0.1f32; dim];
    qv[2] = 1.0;
    let raw = hnsw.search(&qv[..], breadth, 64);
    assert!(!raw.is_empty());
    let hits: Vec<(usize, String)> =
        raw.iter().map(|n| (n.d_id, format!("{:.3}", 1.0 - n.distance))).collect();
    let out = render_results(items, &filter, &hits, top_k);
    assert!(out.starts_with("Filter: Character only\n\n"));
    assert!(out.contains("1. [Character] Arion (in 'Aerda > North') : Arion: king (similarity:"));
    assert_eq!(out.lines().filter(|l| !l.is_empty()).count(), 2);

    // the region query filters to North: the region keyword outranks the
    // world keyword
    let query = "Décris-moi les régions du monde.";
    let filter = detect_item_type_from_query(query);
    assert_eq!(filter, Some(ItemType::Region));
    let breadth = search_breadth(&filter, top_k);
    let raw = hnsw.search(&qv[..], breadth, 64);
    let hits: Vec<(usize, String)> =
        raw.iter().map(|n| (n.d_id, format!("{:.3}", 1.0 - n.distance))).collect();
    let out = render_results(items, &filter, &hits, top_k);
    assert!(out.starts_with("Filter: Region only\n\n"));
    assert!(out.contains("1. [Region] North (in 'Aerda') : North (similarity:"));
    assert!(!out.contains("Arion"));

    // a query without keywords gets no filter line and up to three results
    // in index order
    let query = "tell me a story";
    let filter = detect_item_type_from_query(query);
    assert_eq!(filter, None);
    let breadth = search_breadth(&filter, top_k);
    let raw = hnsw.search(&qv[..], breadth, 64);
    let hits: Vec<(usize, String)> =
        raw.iter().map(|n| (n.d_id, format!("{:.3}", 1.0 - n.distance))).collect();
    let out = render_results(items, &filter, &hits, top_k);
    assert!(!out.contains("Filter:"));
    assert!(out.starts_with("1. "));
    assert!(out.lines().count() <= 3);
}
