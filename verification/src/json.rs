//! The library's model of a parsed JSON document.  Object fields keep their
//! textual order; a number keeps its lexeme, which none of the library's
//! logic reads.

use vstd::prelude::*;

verus! {

/// A parsed JSON value.
pub enum JsonValue {
    Null,
    Bool(bool),
    Number(String),
    Str(String),
    Array(Vec<JsonValue>),
    Object(Vec<(String, JsonValue)>),
}

/// The value of the first field with the given key, if any.
pub open spec fn spec_get(fields: Seq<(String, JsonValue)>, key: Seq<char>) -> Option<JsonValue>
    decreases fields.len(),
{
    if fields.len() == 0 {
        None
    } else if fields[0].0@ == key {
        Some(fields[0].1)
    } else {
        spec_get(fields.drop_first(), key)
    }
}

/// A found field value is one of the field entries, so it sits below the
/// object in the value order that recursion descends.
pub proof fn lemma_spec_get_witness(fields: Seq<(String, JsonValue)>, key: Seq<char>)
    requires
        spec_get(fields, key) is Some,
    ensures
        exists|i: int|
            0 <= i < fields.len() && fields[i].1 == spec_get(fields, key)->Some_0,
    decreases fields.len(),
{
    if fields.len() == 0 {
    } else if fields[0].0@ == key {
        assert(fields[0].1 == spec_get(fields, key)->Some_0);
    } else {
        lemma_spec_get_witness(fields.drop_first(), key);
        let i = choose|i: int|
            0 <= i < fields.drop_first().len() && fields.drop_first()[i].1 == spec_get(
                fields.drop_first(),
                key,
            )->Some_0;
        assert(fields[i + 1].1 == spec_get(fields, key)->Some_0);
    }
}

/// Looks up the first field with the given key.
pub fn get_field<'a>(fields: &'a Vec<(String, JsonValue)>, key: &str) -> (r: Option<
    &'a JsonValue,
>)
    ensures
        match r {
            Some(v) => spec_get(fields@, key@) == Some(*v),
            None => spec_get(fields@, key@) is None,
        },
{
    let mut i: usize = 0;
    proof {
        assert(fields@.skip(0) =~= fields@);
    }
    while i < fields.len()
        invariant
            i <= fields@.len(),
            spec_get(fields@, key@) == spec_get(fields@.skip(i as int), key@),
        decreases fields@.len() - i,
    {
        proof {
            assert(fields@.skip(i as int)[0] == fields@[i as int]);
            assert(fields@.skip(i as int).drop_first() =~= fields@.skip(i + 1));
        }
        if crate::text::str_eq(fields[i].0.as_str(), key) {
            return Some(&fields[i].1);
        }
        i += 1;
    }
    proof {
        assert(fields@.skip(fields@.len() as int) =~= Seq::<(String, JsonValue)>::empty());
    }
    None
}

} // verus!
