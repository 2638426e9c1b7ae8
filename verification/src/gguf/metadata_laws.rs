//! What is found in metadata, by the entries that they were made from.

use super::metadata::{
    entries_map, entry_model, entry_models, lookup, text_array, GgufMetadata, GgufMetadataValue,
    GgufMetadataValueType, MetaValue,
};
use vstd::prelude::*;

verus! {

/// Whether entry `i` is the last one under `key`.
pub open spec fn is_last_under(
    entries: Seq<(String, GgufMetadataValue)>,
    key: Seq<char>,
    i: int,
) -> bool {
    &&& 0 <= i < entries.len()
    &&& entries[i].0@ == key
    &&& forall|j: int| i < j < entries.len() ==> (#[trigger] entries[j]).0@ != key
}

/// The map of a list of entries has the last entry under a key, and no key that no entry has.
proof fn last_entry_counts(models: Seq<(Seq<char>, MetaValue)>, key: Seq<char>, i: int)
    requires
        0 <= i < models.len(),
        models[i].0 == key,
        forall|j: int| i < j < models.len() ==> (#[trigger] models[j]).0 != key,
    ensures
        entries_map(models).contains_key(key),
        entries_map(models)[key] == models[i].1,
    decreases models.len(),
{
    if i < models.len() - 1 {
        assert(models[models.len() - 1].0 != key);
        let shorter: Seq<(Seq<char>, MetaValue)> = models.drop_last();
        assert forall|j: int| i < j < shorter.len() implies (#[trigger] shorter[j]).0 != key by {
            assert(models[j].0 != key);
        }
        last_entry_counts(shorter, key, i);
    }
}

proof fn other_keys_are_missing(models: Seq<(Seq<char>, MetaValue)>, key: Seq<char>)
    requires
        forall|j: int| 0 <= j < models.len() ==> (#[trigger] models[j]).0 != key,
    ensures
        !entries_map(models).contains_key(key),
    decreases models.len(),
{
    if models.len() > 0 {
        assert(models[models.len() - 1].0 != key);
        let shorter: Seq<(Seq<char>, MetaValue)> = models.drop_last();
        assert forall|j: int| 0 <= j < shorter.len() implies (#[trigger] shorter[j]).0 != key by {
            assert(models[j].0 != key);
        }
        other_keys_are_missing(shorter, key);
    }
}

proof fn entry_is_found(
    entries: Vec<(String, GgufMetadataValue)>,
    m: GgufMetadata,
    key: Seq<char>,
    i: int,
)
    requires
        call_ensures(GgufMetadata::new, (entries,), m),
        is_last_under(entries@, key, i),
    ensures
        lookup(m@, key) == Some(entries@[i].1.model()),
{
    let models: Seq<(Seq<char>, MetaValue)> = entry_models(entries@);
    assert(models[i] == entry_model(entries@[i]));
    assert forall|j: int| i < j < models.len() implies (#[trigger] models[j]).0 != key by {
        assert(models[j] == entry_model(entries@[j]));
        assert(entries@[j].0@ != key);
    }
    last_entry_counts(models, key, i);
}

/// A key is there exactly if some entry has it.
pub proof fn keys_are_those_of_entries(
    entries: Vec<(String, GgufMetadataValue)>,
    m: GgufMetadata,
    key: &str,
    found: bool,
)
    requires
        call_ensures(GgufMetadata::new, (entries,), m),
        call_ensures(GgufMetadata::contains_key, (&m, key), found),
    ensures
        found <==> exists|i: int| 0 <= i < entries@.len() && (#[trigger] entries@[i]).0@ == key@,
{
    let models: Seq<(Seq<char>, MetaValue)> = entry_models(entries@);
    if exists|i: int| 0 <= i < entries@.len() && (#[trigger] entries@[i]).0@ == key@ {
        let i: int = choose|i: int| 0 <= i < entries@.len() && (#[trigger] entries@[i]).0@ == key@;
        let last: int = last_under(entries@, key@, i);
        entry_is_found(entries, m, key@, last);
    } else {
        assert forall|j: int| 0 <= j < models.len() implies (#[trigger] models[j]).0 != key@ by {
            assert(models[j] == entry_model(entries@[j]));
        }
        other_keys_are_missing(models, key@);
    }
}

proof fn last_under(entries: Seq<(String, GgufMetadataValue)>, key: Seq<char>, i: int) -> (r: int)
    requires
        0 <= i < entries.len(),
        entries[i].0@ == key,
    ensures
        is_last_under(entries, key, r),
    decreases entries.len() - i,
{
    if forall|j: int| i < j < entries.len() ==> (#[trigger] entries[j]).0@ != key {
        i
    } else {
        let j: int = choose|j: int| i < j < entries.len() && (#[trigger] entries[j]).0@ == key;
        last_under(entries, key, j)
    }
}

/// The value under a key is that of the last entry with the key, and each typed access gives it
/// if it is of that type and nothing if it is of another.
pub proof fn values_are_those_of_last_entries(
    entries: Vec<(String, GgufMetadataValue)>,
    m: GgufMetadata,
    key: &str,
    i: int,
    text: Option<&str>,
    word: Option<u32>,
    long: Option<u64>,
    float: Option<u32>,
    flag: Option<bool>,
)
    requires
        call_ensures(GgufMetadata::new, (entries,), m),
        is_last_under(entries@, key@, i),
        call_ensures(GgufMetadata::get_string, (&m, key), text),
        call_ensures(GgufMetadata::get_u32, (&m, key), word),
        call_ensures(GgufMetadata::get_u64, (&m, key), long),
        call_ensures(GgufMetadata::get_f32, (&m, key), float),
        call_ensures(GgufMetadata::get_bool, (&m, key), flag),
    ensures
        text is Some <==> entries@[i].1 is String,
        entries@[i].1 matches GgufMetadataValue::String(s) ==> text->Some_0@ == s@,
        word is Some <==> entries@[i].1 is Uint32,
        entries@[i].1 matches GgufMetadataValue::Uint32(v) ==> word == Some(v),
        long is Some <==> entries@[i].1 is Uint64,
        entries@[i].1 matches GgufMetadataValue::Uint64(v) ==> long == Some(v),
        float is Some <==> entries@[i].1 is Float32,
        entries@[i].1 matches GgufMetadataValue::Float32(v) ==> float == Some(v),
        flag is Some <==> entries@[i].1 is Bool,
        entries@[i].1 matches GgufMetadataValue::Bool(v) ==> flag == Some(v),
{
    entry_is_found(entries, m, key@, i);
}

/// An array of strings is given as one exactly where each of its elements is a string, and then
/// element by element.
pub proof fn string_arrays_are_given_whole(
    entries: Vec<(String, GgufMetadataValue)>,
    m: GgufMetadata,
    key: &str,
    i: int,
    texts: Option<Vec<&str>>,
)
    requires
        call_ensures(GgufMetadata::new, (entries,), m),
        is_last_under(entries@, key@, i),
        call_ensures(GgufMetadata::get_array_string, (&m, key), texts),
    ensures
        texts is Some <==> (entries@[i].1 matches GgufMetadataValue::Array(a) && forall|k: int|
            0 <= k < a@.len() ==> #[trigger] a@[k] is String),
        entries@[i].1 matches GgufMetadataValue::Array(a) ==> texts is Some ==> {
            &&& texts->Some_0@.len() == a@.len()
            &&& forall|k: int|
                0 <= k < a@.len() ==> (#[trigger] a@[k])->String_0@ == texts->Some_0@[k]@
        },
{
    entry_is_found(entries, m, key@, i);
    if let GgufMetadataValue::Array(a) = entries@[i].1 {
        let items: Seq<MetaValue> = entries@[i].1.model()->Array_0;
        assert(forall|k: int| 0 <= k < a@.len() ==> items[k] == (#[trigger] a@[k]).model());
        assert(forall|k: int| 0 <= k < a@.len() ==> #[trigger] items[k] == a@[k].model());
        if let Some(given) = texts {
            let views: Seq<Seq<char>> = given@.map_values(|t: &str| t@);
            assert(text_array(m@[key@]) == Some(views));
            assert(views == Seq::new(items.len(), |k: int| items[k]->Text_0));
            assert(views.len() == given@.len());
            assert forall|k: int| 0 <= k < a@.len() implies (#[trigger] a@[k])->String_0@
                == given@[k]@ by {
                assert(items[k] is Text);
                assert(views[k] == items[k]->Text_0);
                assert(views[k] == given@[k]@);
            }
        }
    }
}

/// An array of 32-bit floats is given as one exactly where each of its elements is such a float,
/// and then element by element.
pub proof fn float_arrays_are_given_whole(
    entries: Vec<(String, GgufMetadataValue)>,
    m: GgufMetadata,
    key: &str,
    i: int,
    floats: Option<Vec<u32>>,
)
    requires
        call_ensures(GgufMetadata::new, (entries,), m),
        is_last_under(entries@, key@, i),
        call_ensures(GgufMetadata::get_array_f32, (&m, key), floats),
    ensures
        floats is Some <==> (entries@[i].1 matches GgufMetadataValue::Array(a) && forall|k: int|
            0 <= k < a@.len() ==> #[trigger] a@[k] is Float32),
        entries@[i].1 matches GgufMetadataValue::Array(a) ==> floats is Some ==> {
            &&& floats->Some_0@.len() == a@.len()
            &&& forall|k: int|
                0 <= k < a@.len() ==> #[trigger] a@[k] == GgufMetadataValue::Float32(
                    floats->Some_0@[k],
                )
        },
{
    entry_is_found(entries, m, key@, i);
    if let GgufMetadataValue::Array(a) = entries@[i].1 {
        let items: Seq<MetaValue> = entries@[i].1.model()->Array_0;
        assert(forall|k: int| 0 <= k < a@.len() ==> items[k] == (#[trigger] a@[k]).model());
        assert(forall|k: int| 0 <= k < a@.len() ==> #[trigger] items[k] == a@[k].model());
        if let Some(given) = floats {
            assert forall|k: int| 0 <= k < a@.len() implies #[trigger] a@[k]
                == GgufMetadataValue::Float32(given@[k]) by {
                assert(items[k] is Float32);
                assert(items[k]->Float32_0 == given@[k]);
            }
        }
    }
}

/// Values of one type are equal where what they hold is, values of two types never.
pub proof fn equal_values_hold_the_same(a: GgufMetadataValue, b: GgufMetadataValue, r: bool)
    requires
        call_ensures(GgufMetadataValue::eq, (&a, &b), r),
    ensures
        r ==> {
            ||| a is Uint8 && b is Uint8
            ||| a is Int8 && b is Int8
            ||| a is Uint16 && b is Uint16
            ||| a is Int16 && b is Int16
            ||| a is Uint32 && b is Uint32
            ||| a is Int32 && b is Int32
            ||| a is Float32 && b is Float32
            ||| a is Bool && b is Bool
            ||| a is String && b is String
            ||| a is Array && b is Array
            ||| a is Uint64 && b is Uint64
            ||| a is Int64 && b is Int64
            ||| a is Float64 && b is Float64
        },
        a is Uint8 && b is Uint8 ==> r == (a->Uint8_0 == b->Uint8_0),
        a is Int8 && b is Int8 ==> r == (a->Int8_0 == b->Int8_0),
        a is Uint16 && b is Uint16 ==> r == (a->Uint16_0 == b->Uint16_0),
        a is Int16 && b is Int16 ==> r == (a->Int16_0 == b->Int16_0),
        a is Uint32 && b is Uint32 ==> r == (a->Uint32_0 == b->Uint32_0),
        a is Int32 && b is Int32 ==> r == (a->Int32_0 == b->Int32_0),
        a is Bool && b is Bool ==> r == (a->Bool_0 == b->Bool_0),
        a is String && b is String ==> r == (a->String_0@ == b->String_0@),
        a is Uint64 && b is Uint64 ==> r == (a->Uint64_0 == b->Uint64_0),
        a is Int64 && b is Int64 ==> r == (a->Int64_0 == b->Int64_0),
        a is Array && b is Array && a->Array_0@.len() != b->Array_0@.len() ==> !r,
{
}

/// Arrays of one length are equal exactly where they are element by element.
pub proof fn equal_arrays_have_equal_elements(
    a: GgufMetadataValue,
    b: GgufMetadataValue,
    r: bool,
    elements: Seq<bool>,
)
    requires
        a is Array,
        b is Array,
        a->Array_0@.len() == b->Array_0@.len() == elements.len(),
        call_ensures(GgufMetadataValue::eq, (&a, &b), r),
        forall|k: int|
            0 <= k < elements.len() ==> call_ensures(
                GgufMetadataValue::eq,
                (&a->Array_0@[k], &b->Array_0@[k]),
                #[trigger] elements[k],
            ),
    ensures
        r <==> forall|k: int| 0 <= k < elements.len() ==> #[trigger] elements[k],
{
    let x: Seq<MetaValue> = a.model()->Array_0;
    let y: Seq<MetaValue> = b.model()->Array_0;
    assert forall|k: int| 0 <= k < elements.len() implies #[trigger] elements[k] == x[k].equals(
        y[k],
    ) by {
        assert(x[k] == a->Array_0@[k].model());
        assert(y[k] == b->Array_0@[k].model());
    }
    if r {
        assert forall|k: int| 0 <= k < elements.len() implies #[trigger] elements[k] by {
            assert(x[k].equals(y[k]));
        }
    }
    if forall|k: int| 0 <= k < elements.len() ==> #[trigger] elements[k] {
        assert forall|k: int| 0 <= k < x.len() implies (#[trigger] x[k]).equals(y[k]) by {
            assert(elements[k]);
        }
    }
}

/// The numbers of the value types: small integers come first, then floats, flags, strings and
/// arrays, and the 64-bit types last. Signed types follow unsigned ones.
pub proof fn value_types_have_their_numbers(v: u32, r: Option<GgufMetadataValueType>)
    requires
        call_ensures(GgufMetadataValueType::from_u32, (v,), r),
    ensures
        v == 0 <==> r == Some(GgufMetadataValueType::Uint8),
        v == 1 <==> r == Some(GgufMetadataValueType::Int8),
        v == 2 <==> r == Some(GgufMetadataValueType::Uint16),
        v == 3 <==> r == Some(GgufMetadataValueType::Int16),
        v == 4 <==> r == Some(GgufMetadataValueType::Uint32),
        v == 5 <==> r == Some(GgufMetadataValueType::Int32),
        v == 6 <==> r == Some(GgufMetadataValueType::Float32),
        v == 7 <==> r == Some(GgufMetadataValueType::Bool),
        v == 8 <==> r == Some(GgufMetadataValueType::String),
        v == 9 <==> r == Some(GgufMetadataValueType::Array),
        v == 10 <==> r == Some(GgufMetadataValueType::Uint64),
        v == 11 <==> r == Some(GgufMetadataValueType::Int64),
        v == 12 <==> r == Some(GgufMetadataValueType::Float64),
        v > 12 <==> r is None,
{
}

/// The number of a value type leads back to it.
pub proof fn value_type_numbers_lead_back(
    t: GgufMetadataValueType,
    v: u32,
    r: Option<GgufMetadataValueType>,
)
    requires
        call_ensures(GgufMetadataValueType::to_u32, (t,), v),
        call_ensures(GgufMetadataValueType::from_u32, (v,), r),
    ensures
        r == Some(t),
{
}

/// The pairs that metadata are walked by are those that are found by their keys: a pair for each
/// key that is there, with the value that is found under it, and no key twice. They are as many as
/// the metadata have entries.
pub proof fn pairs_are_those_found(
    m: GgufMetadata,
    pairs: Vec<(&str, &GgufMetadataValue)>,
    key: &str,
    found: Option<&GgufMetadataValue>,
    len: usize,
    is_empty: bool,
    i: int,
    j: int,
)
    requires
        call_ensures(GgufMetadata::len, (&m,), len),
        call_ensures(GgufMetadata::is_empty, (&m,), is_empty),
        call_ensures(GgufMetadata::iter, (&m,), pairs),
        call_ensures(GgufMetadata::get, (&m, key), found),
    ensures
        0 <= i < pairs@.len() && pairs@[i].0@ == key@ ==> (found matches Some(v)
            && v.model() == pairs@[i].1.model()),
        found is Some ==> exists|k: int| 0 <= k < pairs@.len() && (#[trigger] pairs@[k]).0@ == key@,
        0 <= i < j < pairs@.len() ==> pairs@[i].0@ != pairs@[j].0@,
        len == pairs@.len(),
        is_empty <==> pairs@.len() == 0,
{
    let keys: Seq<Seq<char>> = pairs@.map_values(|p: (&str, &GgufMetadataValue)| p.0@);
    assert(keys.no_duplicates());
    keys.unique_seq_to_set();
    assert forall|k: Seq<char>| m@.dom().contains(k) <==> keys.to_set().contains(k) by {
        if m@.contains_key(k) {
            let at: int = choose|at: int| 0 <= at < pairs@.len() && pairs@[at].0@ == k;
            assert(keys[at] == k);
        }
        if keys.to_set().contains(k) {
            let at: int = keys.index_of(k);
            assert(keys[at] == k);
            assert(m@.contains_key(pairs@[at].0@));
        }
    }
    assert(m@.dom() =~= keys.to_set());
    if pairs@.len() > 0 {
        assert(m@.contains_key(pairs@[0].0@));
    } else {
        assert(m@ =~= Map::<Seq<char>, MetaValue>::empty());
    }
    if found is Some {
        assert(m@.contains_key(key@));
        let k: int = choose|k: int| 0 <= k < pairs@.len() && pairs@[k].0@ == key@;
        assert(pairs@[k].0@ == key@);
    }
}

} // verus!
