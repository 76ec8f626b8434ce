//! Recursive traversal of a JSON tree extracting all lore elements, with
//! hierarchy tracking: every object with a string `name` field becomes an
//! item, its kind is the one of the nearest enclosing recognized container
//! key, its ancestor path collects the names of enclosing entities.

use vstd::prelude::*;
use crate::json::{spec_get, JsonValue};
use crate::text::spec_join;
use crate::types::{Item, ItemModel, ItemType};

verus! {

/// The recognized container keys, in the fixed order the walker explores
/// them.
pub open spec fn container_keys() -> Seq<Seq<char>> {
    seq!["worlds"@, "regions"@, "locations"@, "characters"@, "events"@, "factions"@]
}

/// The description of an entity object: its `description` field when that
/// field holds a string, empty otherwise.
pub open spec fn spec_desc(fields: Seq<(String, JsonValue)>) -> Seq<char> {
    match spec_get(fields, "description"@) {
        Some(JsonValue::Str(d)) => d@,
        _ => Seq::empty(),
    }
}

/// The text an entity is embedded and shown as: its name alone when it has no
/// description, otherwise name, colon, description.
pub open spec fn spec_entity_text(name: Seq<char>, fields: Seq<(String, JsonValue)>) -> Seq<
    char,
> {
    if spec_desc(fields).len() == 0 {
        name
    } else {
        name + ": "@ + spec_desc(fields)
    }
}

/// An entity without a description is embedded and shown as its name alone.
pub proof fn lemma_text_without_description(name: Seq<char>, fields: Seq<(String, JsonValue)>)
    requires
        spec_get(fields, "description"@) is None,
    ensures
        spec_entity_text(name, fields) == name,
{
}

/// The items extracted from a JSON value, given the stack of ancestor entity
/// names and the kind context; `None` when a `name` field somewhere below
/// holds a non-string.
pub open spec fn spec_extract(v: JsonValue, path: Seq<Seq<char>>, kind: ItemType) -> Option<
    Seq<ItemModel>,
>
    decreases v, 1int, 0int,
        via spec_extract_decreases
{
    match v {
        JsonValue::Object(fields) => match spec_get(fields@, "name"@) {
            Some(JsonValue::Str(name)) => {
                let item = ItemModel {
                    name: name@,
                    text: spec_entity_text(name@, fields@),
                    kind: kind,
                    parent_path: spec_join(path, " > "@),
                    depth: path.len(),
                };
                match spec_extract_keys(v, path.push(name@), 0) {
                    Some(children) => Some(seq![item] + children),
                    None => None,
                }
            },
            Some(_) => None,
            None => spec_extract_keys(v, path, 0),
        },
        JsonValue::Array(_) => spec_extract_elems(v, path, kind, 0),
        _ => Some(Seq::empty()),
    }
}

/// The items extracted from the recognized container keys of an object, from
/// the key at position `k` of the fixed table on.
pub open spec fn spec_extract_keys(v: JsonValue, cpath: Seq<Seq<char>>, k: int) -> Option<
    Seq<ItemModel>,
>
    decreases v, 0int, 6 - k,
        via spec_extract_keys_decreases
{
    match v {
        JsonValue::Object(fields) => {
            if k < 0 || k >= 6 {
                Some(Seq::empty())
            } else {
                let head = match spec_get(fields@, container_keys()[k]) {
                    Some(child) => spec_extract(
                        child,
                        cpath,
                        ItemType::spec_from_key(container_keys()[k]),
                    ),
                    None => Some(Seq::empty()),
                };
                match (head, spec_extract_keys(v, cpath, k + 1)) {
                    (Some(h), Some(t)) => Some(h + t),
                    _ => None,
                }
            }
        },
        _ => Some(Seq::empty()),
    }
}

/// The items extracted from the elements of an array, from position `i` on;
/// each element inherits the path and the kind context unchanged.
pub open spec fn spec_extract_elems(
    v: JsonValue,
    path: Seq<Seq<char>>,
    kind: ItemType,
    i: int,
) -> Option<Seq<ItemModel>>
    decreases v, 0int, (match v {
        JsonValue::Array(elems) => elems@.len() as int - i,
        _ => 0int,
    }),
        via spec_extract_elems_decreases
{
    match v {
        JsonValue::Array(elems) => {
            if i < 0 || i >= elems@.len() {
                Some(Seq::empty())
            } else {
                match (spec_extract(elems@[i], path, kind), spec_extract_elems(
                    v,
                    path,
                    kind,
                    i + 1,
                )) {
                    (Some(h), Some(t)) => Some(h + t),
                    _ => None,
                }
            }
        },
        _ => Some(Seq::empty()),
    }
}

#[via_fn]
proof fn spec_extract_decreases(v: JsonValue, path: Seq<Seq<char>>, kind: ItemType) {
}

#[via_fn]
proof fn spec_extract_keys_decreases(v: JsonValue, cpath: Seq<Seq<char>>, k: int) {
    match v {
        JsonValue::Object(fields) => {
            if 0 <= k < 6 {
                let key = container_keys()[k];
                if spec_get(fields@, key) is Some {
                    crate::json::lemma_spec_get_witness(fields@, key);
                    let i = choose|i: int|
                        0 <= i < fields@.len() && fields@[i].1 == spec_get(fields@, key)->Some_0;
                    assert(decreases_to!(v => fields@[i].1));
                }
            }
        },
        _ => {},
    }
}

#[via_fn]
proof fn spec_extract_elems_decreases(
    v: JsonValue,
    path: Seq<Seq<char>>,
    kind: ItemType,
    i: int,
) {
    match v {
        JsonValue::Array(elems) => {
            if 0 <= i < elems@.len() {
                assert(decreases_to!(v => elems@[i]));
            }
        },
        _ => {},
    }
}

/// The depth of an item counts the `" > "`-separated segments of its parent
/// path: none for an empty path, one more than the separator occurrences
/// otherwise.
pub open spec fn depth_matches_segments(m: ItemModel) -> bool {
    m.depth as int == crate::text::count_occ(m.parent_path, " > "@) + (
    if m.parent_path.len() == 0 {
        0int
    } else {
        1int
    })
}

proof fn lemma_extract_depths(v: JsonValue, path: Seq<Seq<char>>, kind: ItemType)
    requires
        forall|i: int| 0 <= i < path.len() ==> crate::text::clean_name(#[trigger] path[i]),
        spec_extract(v, path, kind) is Some,
        forall|j: int|
            0 <= j < spec_extract(v, path, kind)->Some_0.len() ==> crate::text::clean_name(
                #[trigger] spec_extract(v, path, kind)->Some_0[j].name,
            ),
    ensures
        forall|j: int|
            0 <= j < spec_extract(v, path, kind)->Some_0.len() ==> depth_matches_segments(
                #[trigger] spec_extract(v, path, kind)->Some_0[j],
            ),
    decreases v, 1int, 0int,
{
    let l = spec_extract(v, path, kind)->Some_0;
    match v {
        JsonValue::Object(fields) => match spec_get(fields@, "name"@) {
            Some(JsonValue::Str(name)) => {
                let cpath = path.push(name@);
                let children = spec_extract_keys(v, cpath, 0)->Some_0;
                assert(l == seq![l[0]] + children);
                assert(l[0].name == name@);
                assert(crate::text::clean_name(name@));
                crate::text::lemma_depth_matches_segments(path);
                assert(depth_matches_segments(l[0]));
                assert(forall|i: int|
                    0 <= i < cpath.len() ==> crate::text::clean_name(#[trigger] cpath[i]));
                assert(forall|j: int| 0 <= j < children.len() ==> children[j] == l[j + 1]);
                lemma_extract_keys_depths(v, cpath, 0);
            },
            Some(_) => {},
            None => {
                lemma_extract_keys_depths(v, path, 0);
            },
        },
        JsonValue::Array(_) => {
            lemma_extract_elems_depths(v, path, kind, 0);
        },
        _ => {},
    }
}

proof fn lemma_extract_keys_depths(v: JsonValue, cpath: Seq<Seq<char>>, k: int)
    requires
        forall|i: int| 0 <= i < cpath.len() ==> crate::text::clean_name(#[trigger] cpath[i]),
        spec_extract_keys(v, cpath, k) is Some,
        forall|j: int|
            0 <= j < spec_extract_keys(v, cpath, k)->Some_0.len() ==> crate::text::clean_name(
                #[trigger] spec_extract_keys(v, cpath, k)->Some_0[j].name,
            ),
    ensures
        forall|j: int|
            0 <= j < spec_extract_keys(v, cpath, k)->Some_0.len() ==> depth_matches_segments(
                #[trigger] spec_extract_keys(v, cpath, k)->Some_0[j],
            ),
    decreases v, 0int, 6 - k,
{
    let l = spec_extract_keys(v, cpath, k)->Some_0;
    match v {
        JsonValue::Object(fields) => {
            if 0 <= k < 6 {
                let key = container_keys()[k];
                let h = match spec_get(fields@, key) {
                    Some(child) => spec_extract(child, cpath, ItemType::spec_from_key(key))->Some_0,
                    None => Seq::<ItemModel>::empty(),
                };
                let t = spec_extract_keys(v, cpath, k + 1)->Some_0;
                assert(l == h + t);
                assert(forall|j: int| 0 <= j < h.len() ==> h[j] == l[j]);
                assert(forall|j: int| 0 <= j < t.len() ==> t[j] == l[h.len() + j]);
                if spec_get(fields@, key) is Some {
                    let child = spec_get(fields@, key)->Some_0;
                    crate::json::lemma_spec_get_witness(fields@, key);
                    let i = choose|i: int|
                        0 <= i < fields@.len() && fields@[i].1 == spec_get(fields@, key)->Some_0;
                    assert(decreases_to!(v => fields@[i].1));
                    lemma_extract_depths(child, cpath, ItemType::spec_from_key(key));
                }
                lemma_extract_keys_depths(v, cpath, k + 1);
            }
        },
        _ => {},
    }
}

proof fn lemma_extract_elems_depths(v: JsonValue, path: Seq<Seq<char>>, kind: ItemType, i: int)
    requires
        forall|t: int| 0 <= t < path.len() ==> crate::text::clean_name(#[trigger] path[t]),
        spec_extract_elems(v, path, kind, i) is Some,
        forall|j: int|
            0 <= j < spec_extract_elems(v, path, kind, i)->Some_0.len()
                ==> crate::text::clean_name(
                #[trigger] spec_extract_elems(v, path, kind, i)->Some_0[j].name,
            ),
    ensures
        forall|j: int|
            0 <= j < spec_extract_elems(v, path, kind, i)->Some_0.len() ==> depth_matches_segments(
                #[trigger] spec_extract_elems(v, path, kind, i)->Some_0[j],
            ),
    decreases v, 0int, (match v {
        JsonValue::Array(elems) => elems@.len() as int - i,
        _ => 0int,
    }),
{
    let l = spec_extract_elems(v, path, kind, i)->Some_0;
    match v {
        JsonValue::Array(elems) => {
            if 0 <= i < elems@.len() {
                let h = spec_extract(elems@[i], path, kind)->Some_0;
                let t = spec_extract_elems(v, path, kind, i + 1)->Some_0;
                assert(l == h + t);
                assert(forall|j: int| 0 <= j < h.len() ==> h[j] == l[j]);
                assert(forall|j: int| 0 <= j < t.len() ==> t[j] == l[h.len() + j]);
                assert(decreases_to!(v => elems@[i]));
                lemma_extract_depths(elems@[i], path, kind);
                lemma_extract_elems_depths(v, path, kind, i + 1);
            }
        },
        _ => {},
    }
}

/// In every successfully extracted corpus whose entity names are non-empty
/// and free of the character `'>'`, each item's depth equals the number of
/// `" > "`-separated segments of its parent path, zero for an empty path.  (A
/// name that is empty or contains `'>'` can break this correspondence, so
/// corpora with such names are left out.)
pub proof fn lemma_corpus_depths(v: JsonValue, l: Seq<ItemModel>)
    requires
        spec_extract(v, Seq::empty(), ItemType::Unknown) == Some(l),
        forall|j: int| 0 <= j < l.len() ==> crate::text::clean_name(#[trigger] l[j].name),
    ensures
        forall|j: int| 0 <= j < l.len() ==> depth_matches_segments(#[trigger] l[j]),
{
    let le = spec_extract(v, Seq::empty(), ItemType::Unknown)->Some_0;
    assert(le == l);
    assert forall|j: int| 0 <= j < le.len() implies crate::text::clean_name(
        #[trigger] le[j].name,
    ) by {
        assert(le[j] == l[j]);
    }
    lemma_extract_depths(v, Seq::empty(), ItemType::Unknown);
    assert forall|j: int| 0 <= j < l.len() implies depth_matches_segments(#[trigger] l[j]) by {
        assert(l[j] == le[j]);
    }
}

/// Walks the recognized container keys of an object from position `k` of the
/// fixed table on, collecting the items extracted under each present key.
fn collect_key_children(
    value: &JsonValue,
    out: &mut Vec<Item>,
    path: &mut Vec<String>,
    k: usize,
) -> (r: Result<(), String>)
    requires
        k <= 6,
    ensures
        match r {
            Ok(_) => {
                &&& spec_extract_keys(*value, old(path).deep_view(), k as int) is Some
                &&& final(out).deep_view() == old(out).deep_view() + spec_extract_keys(
                    *value,
                    old(path).deep_view(),
                    k as int,
                )->Some_0
                &&& final(path)@ == old(path)@
                &&& forall|t: int|
                    0 <= t < old(out)@.len() ==> final(out)@[t] == old(out)@[t]
                &&& forall|t: int|
                    old(out)@.len() <= t < final(out)@.len() ==> #[trigger] final(out)@[t].id
                        == t
            },
            Err(e) => {
                &&& spec_extract_keys(*value, old(path).deep_view(), k as int) is None
                &&& e@ == "The 'name' field must be a string"@
            },
        },
    decreases *value, 0int, 6 - k,
{
    let ghost path0 = path.deep_view();
    let ghost out0 = out.deep_view();
    let fields = match value {
        JsonValue::Object(fields) => fields,
        _ => {
            proof {
                assert(out.deep_view() =~= out0 + Seq::<ItemModel>::empty());
            }
            return Ok(());
        },
    };
    if k >= 6 {
        proof {
            assert(out.deep_view() =~= out0 + Seq::<ItemModel>::empty());
        }
        return Ok(());
    }
    let key: &str = if k == 0 {
        "worlds"
    } else if k == 1 {
        "regions"
    } else if k == 2 {
        "locations"
    } else if k == 3 {
        "characters"
    } else if k == 4 {
        "events"
    } else {
        "factions"
    };
    proof {
        assert(container_keys()[k as int] == key@);
    }
    let kind = ItemType::from_key(key);
    let ghost gkey = container_keys()[k as int];
    let ghost head = match spec_get(fields@, gkey) {
        Some(child) => spec_extract(child, path0, ItemType::spec_from_key(gkey)),
        None => Some(Seq::<ItemModel>::empty()),
    };
    match crate::json::get_field(fields, key) {
        Some(child) => {
            proof {
                crate::json::lemma_spec_get_witness(fields@, gkey);
                let i = choose|i: int|
                    0 <= i < fields@.len() && fields@[i].1 == spec_get(fields@, gkey)->Some_0;
                assert(decreases_to!(*value => fields@[i].1));
            }
            match collect_items(child, out, path, kind) {
                Ok(_) => {},
                Err(e) => {
                    return Err(e);
                },
            }
        },
        None => {},
    }
    proof {
        assert(head is Some);
        assert(out.deep_view() == out0 + head->Some_0);
    }
    let ghost out1 = out.deep_view();
    let r = collect_key_children(value, out, path, k + 1);
    match r {
        Ok(_) => {
            proof {
                let tail = spec_extract_keys(*value, path0, k + 1)->Some_0;
                assert(out.deep_view() =~= out0 + (head->Some_0 + tail));
                assert(spec_extract_keys(*value, path0, k as int) == Some(
                    head->Some_0 + tail,
                ));
            }
            Ok(())
        },
        Err(e) => {
            proof {
                assert(spec_extract_keys(*value, path0, k as int) is None);
            }
            Err(e)
        },
    }
}

/// Recursively traverse JSON to extract all lore elements with hierarchy
/// tracking.
///
/// Every object with a string `name` field becomes an item whose id is its
/// emission rank, whose kind is the current kind context, whose ancestor path
/// joins the names on `path`, and whose text joins its name and description;
/// the recognized container keys of every object are then explored in fixed
/// order, and an entity's name is on the path of its descendants.  A `name`
/// field holding a non-string stops the walk with an error.
pub fn collect_items(
    value: &JsonValue,
    out: &mut Vec<Item>,
    path: &mut Vec<String>,
    current_type: ItemType,
) -> (r: Result<(), String>)
    ensures
        match r {
            Ok(_) => {
                &&& spec_extract(*value, old(path).deep_view(), current_type) is Some
                &&& final(out).deep_view() == old(out).deep_view() + spec_extract(
                    *value,
                    old(path).deep_view(),
                    current_type,
                )->Some_0
                &&& final(path)@ == old(path)@
                &&& forall|t: int|
                    0 <= t < old(out)@.len() ==> final(out)@[t] == old(out)@[t]
                &&& forall|t: int|
                    old(out)@.len() <= t < final(out)@.len() ==> #[trigger] final(out)@[t].id
                        == t
            },
            Err(e) => {
                &&& spec_extract(*value, old(path).deep_view(), current_type) is None
                &&& e@ == "The 'name' field must be a string"@
            },
        },
    decreases *value, 1int, 0int,
{
    let ghost path0 = path.deep_view();
    let ghost out0 = out.deep_view();
    match value {
        JsonValue::Object(fields) => {
            let mut entity = false;
            let ghost mut gname: Seq<char> = Seq::empty();
            match crate::json::get_field(fields, "name") {
                Some(nv) => match nv {
                    JsonValue::Str(name) => {
                        let desc: &str = match crate::json::get_field(fields, "description") {
                            Some(dv) => match dv {
                                JsonValue::Str(d) => d.as_str(),
                                _ => "",
                            },
                            None => "",
                        };
                        proof {
                            reveal_strlit("");
                            assert(desc@ == spec_desc(fields@));
                        }
                        let text: String = if desc.is_empty() {
                            name.clone()
                        } else {
                            let mut t = name.clone();
                            t.append(": ");
                            t.append(desc);
                            t
                        };
                        let id = out.len();
                        let parent_path = crate::text::join_strings(path, " > ");
                        let hierarchy_level = path.len();
                        out.push(
                            Item::new(
                                id,
                                name.clone(),
                                text,
                                current_type,
                                parent_path,
                                hierarchy_level,
                            ),
                        );
                        path.push(name.clone());
                        entity = true;
                        proof {
                            gname = name@;
                            let item = ItemModel {
                                name: name@,
                                text: spec_entity_text(name@, fields@),
                                kind: current_type,
                                parent_path: spec_join(path0, " > "@),
                                depth: path0.len(),
                            };
                            assert(out.deep_view() =~= out0 + seq![item]);
                            assert(path.deep_view() =~= path0.push(name@));
                        }
                    },
                    _ => {
                        return Err(String::from_str("The 'name' field must be a string"));
                    },
                },
                None => {},
            }
            let ghost cpath = if entity {
                path0.push(gname)
            } else {
                path0
            };
            let ghost outmid = out.deep_view();
            let cres = collect_key_children(value, out, path, 0);
            match cres {
                Ok(_) => {},
                Err(e) => {
                    return Err(e);
                },
            }
            if entity {
                path.pop();
                proof {
                    assert(path@ =~= old(path)@);
                }
            }
            proof {
                let children = spec_extract_keys(*value, cpath, 0)->Some_0;
                assert(out.deep_view() =~= out0 + (outmid.skip(out0.len() as int) + children));
            }
            Ok(())
        },
        JsonValue::Array(elems) => {
            let mut j: usize = 0;
            while j < elems.len()
                invariant
                    *value == JsonValue::Array(*elems),
                    j <= elems@.len(),
                    path@ == old(path)@,
                    path0 == old(path).deep_view(),
                    out0 == old(out).deep_view(),
                    out0.len() <= out.deep_view().len(),
                    forall|t: int| 0 <= t < old(out)@.len() ==> out@[t] == old(out)@[t],
                    forall|t: int|
                        old(out)@.len() <= t < out@.len() ==> #[trigger] out@[t].id == t,
                    match spec_extract_elems(*value, path0, current_type, j as int) {
                        Some(t) => spec_extract_elems(*value, path0, current_type, 0) == Some(
                            out.deep_view().skip(out0.len() as int) + t,
                        ),
                        None => spec_extract_elems(*value, path0, current_type, 0) is None,
                    },
                decreases elems@.len() - j,
            {
                proof {
                    assert(decreases_to!(*value => elems@[j as int]));
                }
                let ghost outpre = out.deep_view();
                let r = collect_items(&elems[j], out, path, current_type);
                match r {
                    Ok(_) => {
                        proof {
                            let h = spec_extract(elems@[j as int], path0, current_type)->Some_0;
                            assert(out.deep_view().skip(out0.len() as int) =~= outpre.skip(
                                out0.len() as int,
                            ) + h);
                            match spec_extract_elems(*value, path0, current_type, j + 1) {
                                Some(t) => {
                                    assert(spec_extract_elems(
                                        *value,
                                        path0,
                                        current_type,
                                        j as int,
                                    ) == Some(h + t));
                                    assert((outpre.skip(out0.len() as int) + (h + t)) =~= (
                                    out.deep_view().skip(out0.len() as int) + t));
                                },
                                None => {
                                    assert(spec_extract_elems(
                                        *value,
                                        path0,
                                        current_type,
                                        j as int,
                                    ) is None);
                                },
                            }
                        }
                    },
                    Err(e) => {
                        proof {
                            assert(spec_extract_elems(*value, path0, current_type, j as int)
                                is None);
                        }
                        return Err(e);
                    },
                }
                j += 1;
            }
            proof {
                assert(spec_extract_elems(*value, path0, current_type, elems@.len() as int)
                    == Some(Seq::<ItemModel>::empty()));
                assert(out.deep_view().skip(out0.len() as int) + Seq::<ItemModel>::empty()
                    =~= out.deep_view().skip(out0.len() as int));
                assert(out.deep_view() =~= out0 + out.deep_view().skip(out0.len() as int));
            }
            Ok(())
        },
        _ => {
            proof {
                assert(out.deep_view() =~= out0 + Seq::<ItemModel>::empty());
            }
            Ok(())
        },
    }
}

} // verus!
