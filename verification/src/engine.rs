//! The engine core: building the corpus from a parsed JSON tree, the
//! statistics over it, and the configuration of the index that is built
//! beside it.

use vstd::prelude::*;
use vstd::string::*;
use crate::json::JsonValue;
use crate::parser::{collect_items, spec_extract};
use crate::types::{Item, ItemModel, ItemType};

verus! {

/// Configuration for the Lore RAG engine
#[derive(Clone, Copy, Debug)]
pub struct LoreEngineConfig {
    /// Maximum number of connections per node in the index graph
    pub hnsw_max_nb_conn: usize,
    /// Maximum number of layers in the index graph
    pub hnsw_max_layer: usize,
    /// Construction quality parameter for the index
    pub hnsw_ef_construction: usize,
}

impl Default for LoreEngineConfig {
    /// The default index parameters.
    fn default() -> (c: Self)
        ensures
            c.hnsw_max_nb_conn == 16,
            c.hnsw_max_layer == 16,
            c.hnsw_ef_construction == 200,
    {
        LoreEngineConfig { hnsw_max_nb_conn: 16, hnsw_max_layer: 16, hnsw_ef_construction: 200 }
    }
}

/// A corpus is well formed when it is non-empty and every item's id is its
/// position.
pub open spec fn corpus_wf(items: Seq<Item>) -> bool {
    &&& items.len() >= 1
    &&& forall|i: int| 0 <= i < items.len() ==> #[trigger] items[i].id == i
}

/// The ordered corpus of lore items extracted by one successful load; it is
/// immutable after construction.
#[derive(Debug)]
pub struct Corpus {
    items: Vec<Item>,
}

impl View for Corpus {
    type V = Seq<ItemModel>;

    closed spec fn view(&self) -> Seq<ItemModel> {
        self.items.deep_view()
    }
}

impl Corpus {
    /// The exec-level items of the corpus.
    pub closed spec fn spec_items(&self) -> Seq<Item> {
        self.items@
    }

    pub open spec fn wf(&self) -> bool {
        corpus_wf(self.spec_items())
    }

    /// Builds the corpus from a parsed JSON tree.
    ///
    /// Succeeds exactly when the extraction described by `spec_extract`
    /// succeeds and yields at least one item; a `name` field holding a non-string and an
    /// extraction with no entities each yield their error message.
    pub fn from_json(value: &JsonValue) -> (r: Result<Corpus, String>)
        ensures
            match r {
                Ok(c) => {
                    &&& spec_extract(*value, Seq::empty(), ItemType::Unknown) == Some(c@)
                    &&& c@.len() >= 1
                    &&& c.wf()
                },
                Err(e) => {
                    &&& (spec_extract(*value, Seq::empty(), ItemType::Unknown) matches Some(l)
                        ==> l.len() == 0 && e@
                        == "No items found in JSON. Ensure objects have a 'name' field."@)
                    &&& (spec_extract(*value, Seq::empty(), ItemType::Unknown) is None ==> e@
                        == "The 'name' field must be a string"@)
                },
            },
    {
        let mut items: Vec<Item> = Vec::new();
        let mut path: Vec<String> = Vec::new();
        proof {
            assert(items.deep_view() =~= Seq::<ItemModel>::empty());
            assert(path.deep_view() =~= Seq::<Seq<char>>::empty());
        }
        match collect_items(value, &mut items, &mut path, ItemType::Unknown) {
            Ok(_) => {
                if items.len() == 0 {
                    proof {
                        assert(Seq::<ItemModel>::empty() + spec_extract(
                            *value,
                            Seq::empty(),
                            ItemType::Unknown,
                        )->Some_0 =~= spec_extract(*value, Seq::empty(), ItemType::Unknown)->Some_0);
                    }
                    Err(String::from_str("No items found in JSON. Ensure objects have a 'name' field."))
                } else {
                    proof {
                        assert(Seq::<ItemModel>::empty() + spec_extract(
                            *value,
                            Seq::empty(),
                            ItemType::Unknown,
                        )->Some_0 =~= spec_extract(*value, Seq::empty(), ItemType::Unknown)->Some_0);
                    }
                    Ok(Corpus { items })
                }
            },
            Err(e) => Err(e),
        }
    }

    /// The items of the corpus, in id order.
    pub fn items(&self) -> (r: &Vec<Item>)
        ensures
            r@ == self.spec_items(),
            r.deep_view() == self@,
    {
        &self.items
    }

    /// The number of items in the corpus.
    pub fn len(&self) -> (n: usize)
        ensures
            n == self@.len(),
    {
        self.items.len()
    }

    /// Get statistics about the loaded lore: the total number of items and,
    /// for each kind that occurs, how many items have it.
    pub fn stats(&self) -> (s: LoreStats)
        ensures
            s.total_items == self@.len(),
            counts_model(s.type_counts@) == spec_type_counts(self@),
    {
        let ghost models = self@;
        let mut c0: usize = 0;
        let mut c1: usize = 0;
        let mut c2: usize = 0;
        let mut c3: usize = 0;
        let mut c4: usize = 0;
        let mut c5: usize = 0;
        let mut c6: usize = 0;
        let mut j: usize = 0;
        proof {
            assert(models.take(0) =~= Seq::<ItemModel>::empty());
        }
        while j < self.items.len()
            invariant
                models == self@,
                models.len() == self.items@.len(),
                j <= models.len(),
                c0 <= j && c0 == spec_count_kind(models.take(j as int), ItemType::World),
                c1 <= j && c1 == spec_count_kind(models.take(j as int), ItemType::Region),
                c2 <= j && c2 == spec_count_kind(models.take(j as int), ItemType::Location),
                c3 <= j && c3 == spec_count_kind(models.take(j as int), ItemType::Character),
                c4 <= j && c4 == spec_count_kind(models.take(j as int), ItemType::Event),
                c5 <= j && c5 == spec_count_kind(models.take(j as int), ItemType::Faction),
                c6 <= j && c6 == spec_count_kind(models.take(j as int), ItemType::Unknown),
            decreases models.len() - j,
        {
            proof {
                assert(models.take(j + 1) =~= models.take(j as int).push(models[j as int]));
                lemma_count_push(models.take(j as int), models[j as int], ItemType::World);
                lemma_count_push(models.take(j as int), models[j as int], ItemType::Region);
                lemma_count_push(models.take(j as int), models[j as int], ItemType::Location);
                lemma_count_push(models.take(j as int), models[j as int], ItemType::Character);
                lemma_count_push(models.take(j as int), models[j as int], ItemType::Event);
                lemma_count_push(models.take(j as int), models[j as int], ItemType::Faction);
                lemma_count_push(models.take(j as int), models[j as int], ItemType::Unknown);
                assert(models[j as int] == self.items@[j as int]@);
            }
            match self.items[j].item_type {
                ItemType::World => { c0 = c0 + 1; },
                ItemType::Region => { c1 = c1 + 1; },
                ItemType::Location => { c2 = c2 + 1; },
                ItemType::Character => { c3 = c3 + 1; },
                ItemType::Event => { c4 = c4 + 1; },
                ItemType::Faction => { c5 = c5 + 1; },
                ItemType::Unknown => { c6 = c6 + 1; },
            }
            j += 1;
        }
        proof {
            assert(models.take(models.len() as int) =~= models);
        }
        let counts: [usize; 7] = [c0, c1, c2, c3, c4, c5, c6];
        let mut type_counts: Vec<(String, usize)> = Vec::new();
        let mut k: usize = 0;
        proof {
            assert(counts_model(type_counts@) =~= Seq::<(Seq<char>, nat)>::empty());
        }
        while k < 7
            invariant
                models == self@,
                k <= 7,
                counts@ == seq![
                    spec_count_kind(models, ItemType::World) as usize,
                    spec_count_kind(models, ItemType::Region) as usize,
                    spec_count_kind(models, ItemType::Location) as usize,
                    spec_count_kind(models, ItemType::Character) as usize,
                    spec_count_kind(models, ItemType::Event) as usize,
                    spec_count_kind(models, ItemType::Faction) as usize,
                    spec_count_kind(models, ItemType::Unknown) as usize,
                ],
                forall|t: int|
                    0 <= t < 7 ==> counts@[t] == spec_count_kind(models, all_kinds()[t]),
                spec_type_counts(models) == counts_model(type_counts@) + spec_counts_from(
                    models,
                    k as int,
                ),
            decreases 7 - k,
        {
            let kind = match k {
                0 => ItemType::World,
                1 => ItemType::Region,
                2 => ItemType::Location,
                3 => ItemType::Character,
                4 => ItemType::Event,
                5 => ItemType::Faction,
                _ => ItemType::Unknown,
            };
            proof {
                assert(all_kinds()[k as int] == kind);
            }
            let c = counts[k];
            if c > 0 {
                let ghost before = type_counts@;
                type_counts.push((String::from_str(kind.as_str()), c));
                proof {
                    assert(counts_model(type_counts@) =~= counts_model(before).push(
                        (kind.spec_as_str(), c as nat),
                    ));
                    assert((counts_model(before).push((kind.spec_as_str(), c as nat)))
                        + spec_counts_from(models, k + 1) =~= counts_model(before) + (seq![
                        (kind.spec_as_str(), c as nat),
                    ] + spec_counts_from(models, k + 1)));
                }
            } else {
                proof {
                    assert(counts_model(type_counts@) + (Seq::<(Seq<char>, nat)>::empty()
                        + spec_counts_from(models, k + 1)) =~= counts_model(type_counts@)
                        + spec_counts_from(models, k + 1));
                }
            }
            k += 1;
        }
        proof {
            assert(spec_counts_from(models, 7) =~= Seq::<(Seq<char>, nat)>::empty());
            assert(counts_model(type_counts@) + Seq::<(Seq<char>, nat)>::empty() =~= counts_model(
                type_counts@,
            ));
        }
        LoreStats { total_items: self.items.len(), type_counts }
    }
}

/// Statistics about loaded lore: one entry per kind that occurs, in the fixed
/// kind order, with how many items have that kind.
pub struct LoreStats {
    pub total_items: usize,
    pub type_counts: Vec<(String, usize)>,
}

/// The mathematical content of a counts table.
pub open spec fn counts_model(v: Seq<(String, usize)>) -> Seq<(Seq<char>, nat)> {
    Seq::new(v.len(), |i: int| (v[i].0@, v[i].1 as nat))
}

/// All seven kinds, in the fixed order statistics are reported in.
pub open spec fn all_kinds() -> Seq<ItemType> {
    seq![
        ItemType::World,
        ItemType::Region,
        ItemType::Location,
        ItemType::Character,
        ItemType::Event,
        ItemType::Faction,
        ItemType::Unknown,
    ]
}

/// How many of the given items have the given kind.
pub open spec fn spec_count_kind(models: Seq<ItemModel>, kind: ItemType) -> nat
    decreases models.len(),
{
    if models.len() == 0 {
        0
    } else {
        (if models[0].kind == kind {
            1nat
        } else {
            0nat
        }) + spec_count_kind(models.drop_first(), kind)
    }
}

/// Appending an item raises exactly its kind's count by one.
pub proof fn lemma_count_push(models: Seq<ItemModel>, m: ItemModel, kind: ItemType)
    ensures
        spec_count_kind(models.push(m), kind) == spec_count_kind(models, kind) + (
        if m.kind == kind {
            1nat
        } else {
            0nat
        }),
    decreases models.len(),
{
    if models.len() == 0 {
        assert(models.push(m)[0] == m);
        assert(models.push(m).drop_first() =~= Seq::<ItemModel>::empty());
        assert(spec_count_kind(Seq::<ItemModel>::empty(), kind) == 0);
    } else {
        assert(models.push(m)[0] == models[0]);
        assert(models.push(m).drop_first() =~= models.drop_first().push(m));
        lemma_count_push(models.drop_first(), m, kind);
    }
}

/// The statistics entries for the kinds from position `k` of the fixed order
/// on: one entry per kind whose count is not zero.
pub open spec fn spec_counts_from(models: Seq<ItemModel>, k: int) -> Seq<(Seq<char>, nat)>
    decreases 7 - k,
{
    if k < 0 || k >= 7 {
        Seq::empty()
    } else {
        let c = spec_count_kind(models, all_kinds()[k]);
        (if c > 0 {
            seq![(all_kinds()[k].spec_as_str(), c)]
        } else {
            Seq::empty()
        }) + spec_counts_from(models, k + 1)
    }
}

/// The statistics entries over all seven kinds.
pub open spec fn spec_type_counts(models: Seq<ItemModel>) -> Seq<(Seq<char>, nat)> {
    spec_counts_from(models, 0)
}

/// The sum of the counts of a statistics table.
pub open spec fn spec_sum(s: Seq<(Seq<char>, nat)>) -> nat
    decreases s.len(),
{
    if s.len() == 0 {
        0
    } else {
        s[0].1 + spec_sum(s.drop_first())
    }
}

/// Every item has exactly one of the seven kinds, so the seven counts sum to
/// the number of items.
pub proof fn lemma_kind_partition(models: Seq<ItemModel>)
    ensures
        spec_count_kind(models, ItemType::World) + spec_count_kind(models, ItemType::Region)
            + spec_count_kind(models, ItemType::Location) + spec_count_kind(
            models,
            ItemType::Character,
        ) + spec_count_kind(models, ItemType::Event) + spec_count_kind(models, ItemType::Faction)
            + spec_count_kind(models, ItemType::Unknown) == models.len(),
    decreases models.len(),
{
    if models.len() == 0 {
    } else {
        lemma_kind_partition(models.drop_first());
    }
}

/// The sum of the counts from position `k` on equals the sum over those
/// kinds.
proof fn lemma_sum_counts_from(models: Seq<ItemModel>, k: int)
    requires
        0 <= k <= 7,
    ensures
        spec_sum(spec_counts_from(models, k)) == spec_sum_kinds_from(models, k),
    decreases 7 - k,
{
    if k >= 7 {
    } else {
        lemma_sum_counts_from(models, k + 1);
        let c = spec_count_kind(models, all_kinds()[k]);
        if c > 0 {
            assert((seq![(all_kinds()[k].spec_as_str(), c)] + spec_counts_from(models, k + 1))
                .drop_first() =~= spec_counts_from(models, k + 1));
        } else {
            assert(Seq::<(Seq<char>, nat)>::empty() + spec_counts_from(models, k + 1)
                =~= spec_counts_from(models, k + 1));
        }
    }
}

/// The sum of the per-kind counts from position `k` of the fixed order on.
pub open spec fn spec_sum_kinds_from(models: Seq<ItemModel>, k: int) -> nat
    decreases 7 - k,
{
    if k < 0 || k >= 7 {
        0
    } else {
        spec_count_kind(models, all_kinds()[k]) + spec_sum_kinds_from(models, k + 1)
    }
}

/// The per-kind counts of the statistics sum to the number of items: no item
/// is dropped and none is counted twice.
pub proof fn lemma_stats_counts_sum(models: Seq<ItemModel>)
    ensures
        spec_sum(spec_type_counts(models)) == models.len(),
{
    lemma_sum_counts_from(models, 0);
    lemma_kind_partition(models);
    assert(spec_sum_kinds_from(models, 7) == 0);
    assert(spec_sum_kinds_from(models, 6) == spec_count_kind(models, ItemType::Unknown));
    assert(spec_sum_kinds_from(models, 5) == spec_count_kind(models, ItemType::Faction)
        + spec_sum_kinds_from(models, 6));
    assert(spec_sum_kinds_from(models, 4) == spec_count_kind(models, ItemType::Event)
        + spec_sum_kinds_from(models, 5));
    assert(spec_sum_kinds_from(models, 3) == spec_count_kind(models, ItemType::Character)
        + spec_sum_kinds_from(models, 4));
    assert(spec_sum_kinds_from(models, 2) == spec_count_kind(models, ItemType::Location)
        + spec_sum_kinds_from(models, 3));
    assert(spec_sum_kinds_from(models, 1) == spec_count_kind(models, ItemType::Region)
        + spec_sum_kinds_from(models, 2));
    assert(spec_sum_kinds_from(models, 0) == spec_count_kind(models, ItemType::World)
        + spec_sum_kinds_from(models, 1));
}

/// In a well-formed corpus the ids are unique: they equal the positions.
pub proof fn lemma_ids_unique(items: Seq<Item>)
    requires
        corpus_wf(items),
    ensures
        forall|i: int, j: int|
            0 <= i < items.len() && 0 <= j < items.len() && i != j ==> items[i].id != items[j].id,
{
}

/// Extraction is deterministic: loading the same JSON tree twice yields the
/// same corpus, with the same ids, kinds and parent paths.
pub proof fn lemma_load_deterministic(v: JsonValue, c1: Seq<ItemModel>, c2: Seq<ItemModel>)
    requires
        spec_extract(v, Seq::empty(), ItemType::Unknown) == Some(c1),
        spec_extract(v, Seq::empty(), ItemType::Unknown) == Some(c2),
    ensures
        c1 == c2,
{
}

/// The message a query is answered with before any successful load.
pub fn not_loaded_message() -> (m: String)
    ensures
        m@ == "No index loaded. Call load_from_file() first."@,
{
    String::from_str("No index loaded. Call load_from_file() first.")
}

/// The message a failed load surfaces when embedding an item's text fails.
pub fn embedding_error_message(name: &str, detail: &str) -> (m: String)
    ensures
        m@ == "Error embedding '"@ + name@ + "': "@ + detail@,
{
    let mut m = String::from_str("Error embedding '");
    m.append(name);
    m.append("': ");
    m.append(detail);
    proof {
        assert(m@ =~= "Error embedding '"@ + name@ + "': "@ + detail@);
    }
    m
}

} // verus!
