//! Metadata values and typed access to them.

use crate::float_order::{are_equal_doubles, equal, equal_doubles, is_equal};
use crate::text::same_text;
use vstd::hash_map::StringHashMap;
use vstd::prelude::*;

verus! {

/// A metadata value. `Float32` and `Float64` hold the bit pattern of the number, and are equal
/// where the numbers are.
#[derive(Debug)]
pub enum GgufMetadataValue {
    Uint8(u8),
    Int8(i8),
    Uint16(u16),
    Int16(i16),
    Uint32(u32),
    Int32(i32),
    Float32(u32),
    Bool(bool),
    String(String),
    Array(Vec<GgufMetadataValue>),
    Uint64(u64),
    Int64(i64),
    Float64(u64),
}

/// What a metadata value says, with text and arrays as sequences.
#[verifier::ext_equal]
pub enum MetaValue {
    Uint8(u8),
    Int8(i8),
    Uint16(u16),
    Int16(i16),
    Uint32(u32),
    Int32(i32),
    Float32(u32),
    Bool(bool),
    Text(Seq<char>),
    Array(Seq<MetaValue>),
    Uint64(u64),
    Int64(i64),
    Float64(u64),
}

impl MetaValue {
    /// Whether two values are equal: of the same type, and the same, with floats compared as
    /// floats.
    pub open spec fn equals(self, other: MetaValue) -> bool
        decreases self,
    {
        match (self, other) {
            (MetaValue::Float32(a), MetaValue::Float32(b)) => equal(a, b),
            (MetaValue::Float64(a), MetaValue::Float64(b)) => equal_doubles(a, b),
            (MetaValue::Array(a), MetaValue::Array(b)) => {
                &&& a.len() == b.len()
                &&& forall|i: int| 0 <= i < a.len() ==> (#[trigger] a[i]).equals(b[i])
            },
            _ => self == other,
        }
    }
}

/// GGUF metadata value type IDs.
#[derive(Debug, Clone, Copy, PartialEq, Eq, Structural)]
pub enum GgufMetadataValueType {
    Uint8,
    Int8,
    Uint16,
    Int16,
    Uint32,
    Int32,
    Float32,
    Bool,
    String,
    Array,
    Uint64,
    Int64,
    Float64,
}

impl GgufMetadataValueType {
    /// The number that stands for this type in a file.
    pub open spec fn id(self) -> u32 {
        match self {
            GgufMetadataValueType::Uint8 => 0,
            GgufMetadataValueType::Int8 => 1,
            GgufMetadataValueType::Uint16 => 2,
            GgufMetadataValueType::Int16 => 3,
            GgufMetadataValueType::Uint32 => 4,
            GgufMetadataValueType::Int32 => 5,
            GgufMetadataValueType::Float32 => 6,
            GgufMetadataValueType::Bool => 7,
            GgufMetadataValueType::String => 8,
            GgufMetadataValueType::Array => 9,
            GgufMetadataValueType::Uint64 => 10,
            GgufMetadataValueType::Int64 => 11,
            GgufMetadataValueType::Float64 => 12,
        }
    }

    /// The type with the number `v`, if there is one.
    pub open spec fn with_id(v: u32) -> Option<GgufMetadataValueType> {
        match v {
            0 => Some(GgufMetadataValueType::Uint8),
            1 => Some(GgufMetadataValueType::Int8),
            2 => Some(GgufMetadataValueType::Uint16),
            3 => Some(GgufMetadataValueType::Int16),
            4 => Some(GgufMetadataValueType::Uint32),
            5 => Some(GgufMetadataValueType::Int32),
            6 => Some(GgufMetadataValueType::Float32),
            7 => Some(GgufMetadataValueType::Bool),
            8 => Some(GgufMetadataValueType::String),
            9 => Some(GgufMetadataValueType::Array),
            10 => Some(GgufMetadataValueType::Uint64),
            11 => Some(GgufMetadataValueType::Int64),
            12 => Some(GgufMetadataValueType::Float64),
            _ => None,
        }
    }

    /// Try to create from a raw u32 type id.
    pub fn from_u32(v: u32) -> (r: Option<GgufMetadataValueType>)
        ensures
            r == Self::with_id(v),
    {
        match v {
            0 => Some(GgufMetadataValueType::Uint8),
            1 => Some(GgufMetadataValueType::Int8),
            2 => Some(GgufMetadataValueType::Uint16),
            3 => Some(GgufMetadataValueType::Int16),
            4 => Some(GgufMetadataValueType::Uint32),
            5 => Some(GgufMetadataValueType::Int32),
            6 => Some(GgufMetadataValueType::Float32),
            7 => Some(GgufMetadataValueType::Bool),
            8 => Some(GgufMetadataValueType::String),
            9 => Some(GgufMetadataValueType::Array),
            10 => Some(GgufMetadataValueType::Uint64),
            11 => Some(GgufMetadataValueType::Int64),
            12 => Some(GgufMetadataValueType::Float64),
            _ => None,
        }
    }

    /// The number that stands for this type in a file.
    pub fn to_u32(self) -> (r: u32)
        ensures
            r == self.id(),
    {
        match self {
            GgufMetadataValueType::Uint8 => 0,
            GgufMetadataValueType::Int8 => 1,
            GgufMetadataValueType::Uint16 => 2,
            GgufMetadataValueType::Int16 => 3,
            GgufMetadataValueType::Uint32 => 4,
            GgufMetadataValueType::Int32 => 5,
            GgufMetadataValueType::Float32 => 6,
            GgufMetadataValueType::Bool => 7,
            GgufMetadataValueType::String => 8,
            GgufMetadataValueType::Array => 9,
            GgufMetadataValueType::Uint64 => 10,
            GgufMetadataValueType::Int64 => 11,
            GgufMetadataValueType::Float64 => 12,
        }
    }
}

/// Every value type is found again under its number.
pub proof fn value_type_id_round_trip(t: GgufMetadataValueType)
    ensures
        GgufMetadataValueType::with_id(t.id()) == Some(t),
{
}

/// A number that stands for a value type is the number of that type.
pub proof fn value_type_id_is_faithful(v: u32)
    ensures
        GgufMetadataValueType::with_id(v) is Some <==> v <= 12,
        GgufMetadataValueType::with_id(v) matches Some(t) ==> t.id() == v,
{
}

impl GgufMetadataValue {
    /// What this value says.
    pub open spec fn model(self) -> MetaValue
        decreases self,
    {
        match self {
            GgufMetadataValue::Uint8(v) => MetaValue::Uint8(v),
            GgufMetadataValue::Int8(v) => MetaValue::Int8(v),
            GgufMetadataValue::Uint16(v) => MetaValue::Uint16(v),
            GgufMetadataValue::Int16(v) => MetaValue::Int16(v),
            GgufMetadataValue::Uint32(v) => MetaValue::Uint32(v),
            GgufMetadataValue::Int32(v) => MetaValue::Int32(v),
            GgufMetadataValue::Float32(v) => MetaValue::Float32(v),
            GgufMetadataValue::Bool(v) => MetaValue::Bool(v),
            GgufMetadataValue::String(s) => MetaValue::Text(s@),
            GgufMetadataValue::Array(a) => MetaValue::Array(
                Seq::new(
                    a@.len(),
                    |i: int|
                        if 0 <= i < a@.len() {
                            a@[i].model()
                        } else {
                            arbitrary()
                        },
                ),
            ),
            GgufMetadataValue::Uint64(v) => MetaValue::Uint64(v),
            GgufMetadataValue::Int64(v) => MetaValue::Int64(v),
            GgufMetadataValue::Float64(v) => MetaValue::Float64(v),
        }
    }
}

/// Whether two values are equal.
fn same_metadata(a: &GgufMetadataValue, b: &GgufMetadataValue) -> (r: bool)
    ensures
        r == a.model().equals(b.model()),
    decreases a,
{
    match (a, b) {
        (GgufMetadataValue::Uint8(x), GgufMetadataValue::Uint8(y)) => *x == *y,
        (GgufMetadataValue::Int8(x), GgufMetadataValue::Int8(y)) => *x == *y,
        (GgufMetadataValue::Uint16(x), GgufMetadataValue::Uint16(y)) => *x == *y,
        (GgufMetadataValue::Int16(x), GgufMetadataValue::Int16(y)) => *x == *y,
        (GgufMetadataValue::Uint32(x), GgufMetadataValue::Uint32(y)) => *x == *y,
        (GgufMetadataValue::Int32(x), GgufMetadataValue::Int32(y)) => *x == *y,
        (GgufMetadataValue::Float32(x), GgufMetadataValue::Float32(y)) => is_equal(*x, *y),
        (GgufMetadataValue::Bool(x), GgufMetadataValue::Bool(y)) => *x == *y,
        (GgufMetadataValue::String(x), GgufMetadataValue::String(y)) => same_text(
            x.as_str(),
            y.as_str(),
        ),
        (GgufMetadataValue::Array(x), GgufMetadataValue::Array(y)) => {
            let ghost xs: Seq<MetaValue> = a.model()->Array_0;
            let ghost ys: Seq<MetaValue> = b.model()->Array_0;
            if x.len() != y.len() {
                return false;
            }
            let mut i: usize = 0;
            while i < x.len()
                invariant
                    i <= x.len(),
                    x.len() == y.len(),
                    a is Array,
                    b is Array,
                    x == a->Array_0,
                    y == b->Array_0,
                    xs == a.model()->Array_0,
                    ys == b.model()->Array_0,
                    xs.len() == x.len(),
                    ys.len() == y.len(),
                    a.model().equals(b.model()) <==> forall|k: int|
                        0 <= k < xs.len() ==> (#[trigger] xs[k]).equals(ys[k]),
                    forall|k: int| 0 <= k < i ==> (#[trigger] xs[k]).equals(ys[k]),
                decreases x.len() - i,
            {
                assert(decreases_to!(a => a->Array_0@[i as int]));
                assert(xs[i as int] == x@[i as int].model());
                assert(ys[i as int] == y@[i as int].model());
                if !same_metadata(&x[i], &y[i]) {
                    return false;
                }
                i = i + 1;
            }
            true
        },
        (GgufMetadataValue::Uint64(x), GgufMetadataValue::Uint64(y)) => *x == *y,
        (GgufMetadataValue::Int64(x), GgufMetadataValue::Int64(y)) => *x == *y,
        (GgufMetadataValue::Float64(x), GgufMetadataValue::Float64(y)) => are_equal_doubles(
            *x,
            *y,
        ),
        _ => false,
    }
}

impl PartialEq for GgufMetadataValue {
    fn eq(&self, other: &GgufMetadataValue) -> (r: bool) {
        same_metadata(self, other)
    }
}

impl vstd::std_specs::cmp::PartialEqSpecImpl for GgufMetadataValue {
    open spec fn obeys_eq_spec() -> bool {
        true
    }

    open spec fn eq_spec(&self, other: &GgufMetadataValue) -> bool {
        self.model().equals(other.model())
    }
}

impl Clone for GgufMetadataValue {
    fn clone(&self) -> (r: GgufMetadataValue)
        ensures
            r.model() == self.model(),
        decreases self,
    {
        match self {
            GgufMetadataValue::Uint8(v) => GgufMetadataValue::Uint8(*v),
            GgufMetadataValue::Int8(v) => GgufMetadataValue::Int8(*v),
            GgufMetadataValue::Uint16(v) => GgufMetadataValue::Uint16(*v),
            GgufMetadataValue::Int16(v) => GgufMetadataValue::Int16(*v),
            GgufMetadataValue::Uint32(v) => GgufMetadataValue::Uint32(*v),
            GgufMetadataValue::Int32(v) => GgufMetadataValue::Int32(*v),
            GgufMetadataValue::Float32(v) => GgufMetadataValue::Float32(*v),
            GgufMetadataValue::Bool(v) => GgufMetadataValue::Bool(*v),
            GgufMetadataValue::String(s) => GgufMetadataValue::String(s.clone()),
            GgufMetadataValue::Array(a) => {
                let mut copy: Vec<GgufMetadataValue> = Vec::new();
                let mut i: usize = 0;
                while i < a.len()
                    invariant
                        i <= a.len(),
                        self is Array,
                        a == self->Array_0,
                        copy.len() == i,
                        forall|k: int|
                            0 <= k < i ==> (#[trigger] copy@[k]).model() == a@[k].model(),
                    decreases a.len() - i,
                {
                    assert(decreases_to!(self => self->Array_0@[i as int]));
                    copy.push(a[i].clone());
                    i = i + 1;
                }
                let r: GgufMetadataValue = GgufMetadataValue::Array(copy);
                assert(r.model()->Array_0 =~= self.model()->Array_0);
                r
            },
            GgufMetadataValue::Uint64(v) => GgufMetadataValue::Uint64(*v),
            GgufMetadataValue::Int64(v) => GgufMetadataValue::Int64(*v),
            GgufMetadataValue::Float64(v) => GgufMetadataValue::Float64(*v),
        }
    }
}

/// What a list of values says.
pub open spec fn models_of(values: Seq<GgufMetadataValue>) -> Seq<MetaValue> {
    values.map_values(|v: GgufMetadataValue| v.model())
}

/// A key with what its value says.
pub open spec fn entry_model(entry: (String, GgufMetadataValue)) -> (Seq<char>, MetaValue) {
    (entry.0@, entry.1.model())
}

/// What a list of entries says, in order.
pub open spec fn entry_models(entries: Seq<(String, GgufMetadataValue)>) -> Seq<
    (Seq<char>, MetaValue),
> {
    entries.map_values(|e: (String, GgufMetadataValue)| entry_model(e))
}

/// The map that a list of entries gives: of two entries with one key, the later counts.
pub open spec fn entries_map(entries: Seq<(Seq<char>, MetaValue)>) -> Map<Seq<char>, MetaValue>
    decreases entries.len(),
{
    if entries.len() == 0 {
        Map::empty()
    } else {
        entries_map(entries.drop_last()).insert(entries.last().0, entries.last().1)
    }
}

/// The texts of an array of texts.
pub open spec fn text_array(value: MetaValue) -> Option<Seq<Seq<char>>> {
    match value {
        MetaValue::Array(items) => if forall|i: int|
            0 <= i < items.len() ==> #[trigger] items[i] is Text {
            Some(Seq::new(items.len(), |i: int| items[i]->Text_0))
        } else {
            None
        },
        _ => None,
    }
}

/// The bit patterns of an array of 32-bit floats.
pub open spec fn float_array(value: MetaValue) -> Option<Seq<u32>> {
    match value {
        MetaValue::Array(items) => if forall|i: int|
            0 <= i < items.len() ==> #[trigger] items[i] is Float32 {
            Some(Seq::new(items.len(), |i: int| items[i]->Float32_0))
        } else {
            None
        },
        _ => None,
    }
}

/// The value under `key` in `map`, if any.
pub open spec fn lookup(map: Map<Seq<char>, MetaValue>, key: Seq<char>) -> Option<MetaValue> {
    if map.contains_key(key) {
        Some(map[key])
    } else {
        None
    }
}

/// Typed accessor methods for GGUF metadata.
///
/// Entries are kept in a vector, with an index from keys to positions.
pub struct GgufMetadata {
    entries: Vec<(String, GgufMetadataValue)>,
    index: StringHashMap<usize>,
}

impl View for GgufMetadata {
    type V = Map<Seq<char>, MetaValue>;

    closed spec fn view(&self) -> Map<Seq<char>, MetaValue> {
        indexed_map(self.entries@, self.index@)
    }
}

/// The map that entries with an index stand for.
spec fn indexed_map(
    entries: Seq<(String, GgufMetadataValue)>,
    index: Map<Seq<char>, usize>,
) -> Map<Seq<char>, MetaValue> {
    Map::new(
        |k: Seq<char>| index.contains_key(k),
        |k: Seq<char>| entries[index[k] as int].1.model(),
    )
}

/// Whether `index` has each entry under its key, and nothing else.
spec fn indexes(
    index: Map<Seq<char>, usize>,
    entries: Seq<(String, GgufMetadataValue)>,
) -> bool {
    &&& forall|i: int|
        0 <= i < entries.len() ==> index.contains_key((#[trigger] entries[i]).0@)
            && index[entries[i].0@] == i
    &&& forall|k: Seq<char>| #[trigger]
        index.contains_key(k) ==> index[k] < entries.len() && entries[index[k] as int].0@ == k
}

/// The first `n` entries are found in the map that they give.
proof fn distinct_entries_are_kept(
    entries: Seq<(String, GgufMetadataValue)>,
    index: Map<Seq<char>, usize>,
    n: int,
)
    requires
        indexes(index, entries),
        0 <= n <= entries.len(),
    ensures
        ({
            let kept = entries_map(entry_models(entries.take(n)));
            forall|k: Seq<char>|
                (#[trigger] kept.contains_key(k) <==> index.contains_key(k) && index[k] < n) && (
                kept.contains_key(k) ==> kept[k] == entries[index[k] as int].1.model())
        }),
    decreases n,
{
    if n > 0 {
        distinct_entries_are_kept(entries, index, n - 1);
        let models: Seq<(Seq<char>, MetaValue)> = entry_models(entries.take(n));
        assert(models.drop_last() =~= entry_models(entries.take(n - 1)));
        assert(models.last() == entry_model(entries[n - 1]));
    }
}

impl Clone for GgufMetadata {
    fn clone(&self) -> (r: GgufMetadata)
        ensures
            r@ == self@,
    {
        let mut entries: Vec<(String, GgufMetadataValue)> = Vec::new();
        let mut i: usize = 0;
        while i < self.entries.len()
            invariant
                i <= self.entries.len(),
                entry_models(entries@) == entry_models(self.entries@.take(i as int)),
            decreases self.entries.len() - i,
        {
            let entry: &(String, GgufMetadataValue) = &self.entries[i];
            let ghost before: Seq<(String, GgufMetadataValue)> = entries@;
            entries.push((entry.0.clone(), entry.1.clone()));
            proof {
                let model: (Seq<char>, MetaValue) = entry_model(self.entries@[i as int]);
                assert(entry_model(entries@.last()) == model);
                assert(entry_models(entries@) =~= entry_models(before).push(model));
                assert(entry_models(self.entries@.take(i + 1)) =~= entry_models(
                    self.entries@.take(i as int),
                ).push(model));
            }
            i = i + 1;
        }
        proof {
            use_type_invariant(self);
            distinct_entries_are_kept(self.entries@, self.index@, i as int);
            assert(entries_map(entry_models(self.entries@.take(i as int))) =~= self@);
        }
        GgufMetadata::new(entries)
    }
}

impl GgufMetadata {
    #[verifier::type_invariant]
    spec fn inv(self) -> bool {
        indexes(self.index@, self.entries@)
    }

    /// Collects entries. Of two entries with one key, the later counts.
    pub fn new(entries: Vec<(String, GgufMetadataValue)>) -> (r: GgufMetadata)
        ensures
            r@ == entries_map(entry_models(entries@)),
    {
        let ghost all: Seq<(String, GgufMetadataValue)> = entries@;
        let mut rest: Vec<(String, GgufMetadataValue)> = entries;
        let mut kept: Vec<(String, GgufMetadataValue)> = Vec::new();
        let mut index: StringHashMap<usize> = StringHashMap::new();
        assert(entries_map(entry_models(all)) =~= entries_map(
            entry_models(rest@),
        ).union_prefer_right(indexed_map(kept@, index@)));
        loop
            invariant
                indexes(index@, kept@),
                entries_map(entry_models(all)) == entries_map(
                    entry_models(rest@),
                ).union_prefer_right(indexed_map(kept@, index@)),
            ensures
                rest@.len() == 0,
            decreases rest@.len(),
        {
            let ghost rest_before: Seq<(String, GgufMetadataValue)> = rest@;
            match rest.pop() {
                None => {
                    break;
                },
                Some(entry) => {
                    proof {
                        assert(entry_models(rest_before).drop_last() =~= entry_models(rest@));
                        assert(entry_models(rest_before).last() == entry_model(entry));
                    }
                    let ghost kept_before: Seq<(String, GgufMetadataValue)> = kept@;
                    let ghost index_before: Map<Seq<char>, usize> = index@;
                    if !index.contains_key(entry.0.as_str()) {
                        let position: usize = kept.len();
                        index.insert(entry.0.clone(), position);
                        kept.push(entry);
                    }
                    proof {
                        assert(entries_map(entry_models(rest_before)).union_prefer_right(
                            indexed_map(kept_before, index_before),
                        ) =~= entries_map(entry_models(rest@)).union_prefer_right(
                            indexed_map(kept@, index@),
                        ));
                    }
                },
            }
        }
        assert(entries_map(entry_models(rest@)).union_prefer_right(indexed_map(kept@, index@))
            =~= indexed_map(kept@, index@));
        GgufMetadata { entries: kept, index }
    }

    /// Get a raw metadata value.
    pub fn get(&self, key: &str) -> (r: Option<&GgufMetadataValue>)
        ensures
            r is Some <==> self@.contains_key(key@),
            r matches Some(v) ==> v.model() == self@[key@],
    {
        proof {
            use_type_invariant(self);
        }
        match self.index.get(key) {
            Some(position) => Some(&self.entries[*position].1),
            None => None,
        }
    }

    /// Get a string metadata value.
    pub fn get_string(&self, key: &str) -> (r: Option<&str>)
        ensures
            r is Some <==> lookup(self@, key@) matches Some(MetaValue::Text(_)),
            r matches Some(s) ==> lookup(self@, key@) == Some(MetaValue::Text(s@)),
    {
        match self.get(key) {
            Some(GgufMetadataValue::String(s)) => Some(s.as_str()),
            _ => None,
        }
    }

    /// Get a u32 metadata value.
    pub fn get_u32(&self, key: &str) -> (r: Option<u32>)
        ensures
            r is Some <==> lookup(self@, key@) matches Some(MetaValue::Uint32(_)),
            r matches Some(v) ==> lookup(self@, key@) == Some(MetaValue::Uint32(v)),
    {
        match self.get(key) {
            Some(GgufMetadataValue::Uint32(v)) => Some(*v),
            _ => None,
        }
    }

    /// Get a u64 metadata value.
    pub fn get_u64(&self, key: &str) -> (r: Option<u64>)
        ensures
            r is Some <==> lookup(self@, key@) matches Some(MetaValue::Uint64(_)),
            r matches Some(v) ==> lookup(self@, key@) == Some(MetaValue::Uint64(v)),
    {
        match self.get(key) {
            Some(GgufMetadataValue::Uint64(v)) => Some(*v),
            _ => None,
        }
    }

    /// Get the bit pattern of a 32-bit float metadata value.
    pub fn get_f32(&self, key: &str) -> (r: Option<u32>)
        ensures
            r is Some <==> lookup(self@, key@) matches Some(MetaValue::Float32(_)),
            r matches Some(v) ==> lookup(self@, key@) == Some(MetaValue::Float32(v)),
    {
        match self.get(key) {
            Some(GgufMetadataValue::Float32(v)) => Some(*v),
            _ => None,
        }
    }

    /// Get a bool metadata value.
    pub fn get_bool(&self, key: &str) -> (r: Option<bool>)
        ensures
            r is Some <==> lookup(self@, key@) matches Some(MetaValue::Bool(_)),
            r matches Some(v) ==> lookup(self@, key@) == Some(MetaValue::Bool(v)),
    {
        match self.get(key) {
            Some(GgufMetadataValue::Bool(v)) => Some(*v),
            _ => None,
        }
    }

    /// Get a string array metadata value: `None` where the value is no array, or where some
    /// element is no string.
    pub fn get_array_string(&self, key: &str) -> (r: Option<Vec<&str>>)
        ensures
            r is Some <==> (lookup(self@, key@) matches Some(v) && text_array(v) is Some),
            r matches Some(texts) ==> text_array(self@[key@]) == Some(
                texts@.map_values(|t: &str| t@),
            ),
    {
        match self.get(key) {
            Some(GgufMetadataValue::Array(arr)) => {
                let ghost items: Seq<MetaValue> = self@[key@]->Array_0;
                let mut result: Vec<&str> = Vec::new();
                let mut i: usize = 0;
                while i < arr.len()
                    invariant
                        self@.contains_key(key@),
                        self@[key@] == MetaValue::Array(items),
                        items.len() == arr.len(),
                        forall|k: int|
                            0 <= k < arr.len() ==> #[trigger] items[k] == arr@[k].model(),
                        i <= arr.len(),
                        result.len() == i,
                        forall|k: int|
                            0 <= k < i ==> items[k] == MetaValue::Text((#[trigger] result@[k])@),
                    decreases arr.len() - i,
                {
                    match &arr[i] {
                        GgufMetadataValue::String(s) => {
                            result.push(s.as_str());
                        },
                        _ => {
                            assert(!(items[i as int] is Text));
                            return None;
                        },
                    }
                    i = i + 1;
                }
                proof {
                    assert(forall|k: int| 0 <= k < items.len() ==> #[trigger] items[k] is Text) by {
                        assert forall|k: int| 0 <= k < items.len() implies #[trigger]
                            items[k] is Text by {
                            assert(items[k] == MetaValue::Text(result@[k]@));
                        }
                    }
                    assert(Seq::new(items.len(), |k: int| items[k]->Text_0)
                        =~= result@.map_values(|t: &str| t@)) by {
                        assert forall|k: int| 0 <= k < items.len() implies #[trigger]
                            items[k]->Text_0 == result@[k]@ by {
                            assert(items[k] == MetaValue::Text(result@[k]@));
                        }
                    }
                }
                Some(result)
            },
            _ => None,
        }
    }

    /// Get the bit patterns of a 32-bit float array metadata value: `None` where the value is no
    /// array, or where some element is no 32-bit float.
    pub fn get_array_f32(&self, key: &str) -> (r: Option<Vec<u32>>)
        ensures
            r is Some <==> (lookup(self@, key@) matches Some(v) && float_array(v) is Some),
            r matches Some(bits) ==> float_array(self@[key@]) == Some(bits@),
    {
        match self.get(key) {
            Some(GgufMetadataValue::Array(arr)) => {
                let ghost items: Seq<MetaValue> = self@[key@]->Array_0;
                let mut result: Vec<u32> = Vec::new();
                let mut i: usize = 0;
                while i < arr.len()
                    invariant
                        self@.contains_key(key@),
                        self@[key@] == MetaValue::Array(items),
                        items.len() == arr.len(),
                        forall|k: int|
                            0 <= k < arr.len() ==> #[trigger] items[k] == arr@[k].model(),
                        i <= arr.len(),
                        result.len() == i,
                        forall|k: int|
                            0 <= k < i ==> items[k] == MetaValue::Float32(#[trigger] result@[k]),
                    decreases arr.len() - i,
                {
                    match &arr[i] {
                        GgufMetadataValue::Float32(f) => {
                            result.push(*f);
                        },
                        _ => {
                            assert(!(items[i as int] is Float32));
                            return None;
                        },
                    }
                    i = i + 1;
                }
                proof {
                    assert forall|k: int| 0 <= k < items.len() implies #[trigger]
                        items[k] is Float32 && items[k]->Float32_0 == result@[k] by {
                        assert(items[k] == MetaValue::Float32(result@[k]));
                    }
                    assert(Seq::new(items.len(), |k: int| items[k]->Float32_0) =~= result@);
                }
                Some(result)
            },
            _ => None,
        }
    }

    /// Check if a key exists.
    pub fn contains_key(&self, key: &str) -> (r: bool)
        ensures
            r == self@.contains_key(key@),
    {
        self.index.contains_key(key)
    }

    /// Number of metadata entries.
    pub fn len(&self) -> (r: usize)
        ensures
            r == self@.len(),
    {
        assert(self@.dom() =~= self.index@.dom());
        self.index.len()
    }

    /// Whether metadata is empty.
    pub fn is_empty(&self) -> (r: bool)
        ensures
            r == (self@ == Map::<Seq<char>, MetaValue>::empty()),
    {
        proof {
            use_type_invariant(self);
            if self.entries@.len() == 0 {
                assert(self@ =~= Map::<Seq<char>, MetaValue>::empty());
            } else {
                assert(self@.contains_key(self.entries@[0].0@));
            }
        }
        self.entries.is_empty()
    }

    /// All key-value pairs, each key once.
    pub fn iter(&self) -> (r: Vec<(&str, &GgufMetadataValue)>)
        ensures
            forall|i: int|
                0 <= i < r.len() ==> self@.contains_key((#[trigger] r@[i]).0@)
                    && self@[r@[i].0@] == r@[i].1.model(),
            forall|i: int, j: int| 0 <= i < j < r.len() ==> r@[i].0@ != r@[j].0@,
            forall|k: Seq<char>| #[trigger]
                self@.contains_key(k) ==> exists|i: int| 0 <= i < r.len() && r@[i].0@ == k,
    {
        proof {
            use_type_invariant(self);
        }
        let mut r: Vec<(&str, &GgufMetadataValue)> = Vec::new();
        let mut i: usize = 0;
        while i < self.entries.len()
            invariant
                indexes(self.index@, self.entries@),
                i <= self.entries.len(),
                r.len() == i,
                forall|k: int|
                    0 <= k < i ==> (#[trigger] r@[k]).0@ == self.entries@[k].0@ && *r@[k].1
                        == self.entries@[k].1,
            decreases self.entries.len() - i,
        {
            let entry: &(String, GgufMetadataValue) = &self.entries[i];
            r.push((entry.0.as_str(), &entry.1));
            i = i + 1;
        }
        proof {
            assert forall|k: Seq<char>| #[trigger] self@.contains_key(k) implies exists|j: int|
                0 <= j < r.len() && r@[j].0@ == k by {
                assert(self.index@.contains_key(k));
                let j: int = self.index@[k] as int;
                assert(r@[j].0@ == self.entries@[j].0@);
            }
            assert forall|a: int, b: int| 0 <= a < b < r.len() implies r@[a].0@ != r@[b].0@ by {
                assert(self.index@[self.entries@[a].0@] == a);
                assert(self.index@[self.entries@[b].0@] == b);
            }
        }
        r
    }
}

} // verus!
