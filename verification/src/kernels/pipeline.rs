//! Pipeline keys and the cache of compiled pipelines.
//!
//! A kernel is specialised at compile time by function constants. Each combination of a kernel
//! with constants is compiled once; `PsoCache` holds the results.

use crate::gguf::bytes::{byte_ranges, le_bytes, le_round_trip, push_le};
use crate::text::same_text;
use vstd::prelude::*;
use vstd::slice::slice_to_vec;
use vstd::string::*;

verus! {

/// Type tag for function constant serialization.
#[derive(Clone, Copy, Debug, PartialEq, Eq, Hash, Structural)]
pub enum ConstantType {
    UInt,
    Float,
    Bool,
}

/// A single function constant value to set on a pipeline. The bytes are little-endian, as on
/// every machine that has a device for these kernels.
#[derive(Debug, PartialEq, Eq, Hash)]
pub enum ConstantValue {
    /// Set by index.
    Index { index: usize, type_tag: ConstantType, bytes: Vec<u8> },
    /// Set by name.
    Named { name: String, type_tag: ConstantType, bytes: Vec<u8> },
}

/// What a function constant says.
#[verifier::ext_equal]
pub enum ConstantModel {
    Index { index: usize, type_tag: ConstantType, bytes: Seq<u8> },
    Named { name: Seq<char>, type_tag: ConstantType, bytes: Seq<u8> },
}

/// Key for PSO cache lookup: function name + function constant values.
#[derive(Debug, PartialEq, Eq, Hash)]
pub struct PsoKey {
    /// Kernel function name (e.g., "flash_attention").
    pub function_name: String,
    /// Ordered list of function constant values for identity.
    pub constants: Vec<ConstantValue>,
}

/// What a key says.
#[verifier::ext_equal]
pub struct KeyModel {
    pub function_name: Seq<char>,
    pub constants: Seq<ConstantModel>,
}

/// The bytes of a word.
pub open spec fn word_bytes(value: u32) -> Seq<u8> {
    le_bytes(value as nat, 4)
}

/// The byte of a truth value.
pub open spec fn bool_bytes(value: bool) -> Seq<u8> {
    seq![if value { 1u8 } else { 0u8 }]
}

/// A key without constants.
pub open spec fn simple_key(function_name: Seq<char>) -> KeyModel {
    KeyModel { function_name, constants: Seq::empty() }
}

impl KeyModel {
    /// The key with one more constant.
    pub open spec fn with(self, c: ConstantModel) -> KeyModel {
        KeyModel { constants: self.constants.push(c), ..self }
    }

    /// The key with one more integer constant.
    pub open spec fn uint(self, index: usize, value: u32) -> KeyModel {
        self.with(
            ConstantModel::Index { index, type_tag: ConstantType::UInt, bytes: word_bytes(value) },
        )
    }

    /// The key with one more truth value.
    pub open spec fn boolean(self, index: usize, value: bool) -> KeyModel {
        self.with(
            ConstantModel::Index { index, type_tag: ConstantType::Bool, bytes: bool_bytes(value) },
        )
    }
}

fn same_bytes(a: &Vec<u8>, b: &Vec<u8>) -> (r: bool)
    ensures
        r == (a@ == b@),
{
    if a.len() != b.len() {
        return false;
    }
    let mut i: usize = 0;
    while i < a.len()
        invariant
            a.len() == b.len(),
            i <= a.len(),
            forall|k: int| 0 <= k < i ==> a@[k] == b@[k],
        decreases a.len() - i,
    {
        if a[i] != b[i] {
            return false;
        }
        i = i + 1;
    }
    assert(a@ =~= b@);
    true
}

impl Clone for ConstantValue {
    fn clone(&self) -> (r: ConstantValue)
        ensures
            r.model() == self.model(),
    {
        match self {
            ConstantValue::Index { index, type_tag, bytes } => ConstantValue::Index {
                index: *index,
                type_tag: *type_tag,
                bytes: slice_to_vec(bytes.as_slice()),
            },
            ConstantValue::Named { name, type_tag, bytes } => ConstantValue::Named {
                name: name.clone(),
                type_tag: *type_tag,
                bytes: slice_to_vec(bytes.as_slice()),
            },
        }
    }
}

impl ConstantValue {
    /// What this constant says.
    pub open spec fn model(self) -> ConstantModel {
        match self {
            ConstantValue::Index { index, type_tag, bytes } => ConstantModel::Index {
                index,
                type_tag,
                bytes: bytes@,
            },
            ConstantValue::Named { name, type_tag, bytes } => ConstantModel::Named {
                name: name@,
                type_tag,
                bytes: bytes@,
            },
        }
    }

    /// Whether two constants say the same.
    pub fn same_as(&self, other: &ConstantValue) -> (r: bool)
        ensures
            r == (self.model() == other.model()),
    {
        match (self, other) {
            (
                ConstantValue::Index { index, type_tag, bytes },
                ConstantValue::Index { index: index2, type_tag: type_tag2, bytes: bytes2 },
            ) => *index == *index2 && *type_tag == *type_tag2 && same_bytes(bytes, bytes2),
            (
                ConstantValue::Named { name, type_tag, bytes },
                ConstantValue::Named { name: name2, type_tag: type_tag2, bytes: bytes2 },
            ) => same_text(name.as_str(), name2.as_str()) && *type_tag == *type_tag2 && same_bytes(
                bytes,
                bytes2,
            ),
            _ => false,
        }
    }
}

/// What a list of constants says.
pub open spec fn constant_models(constants: Seq<ConstantValue>) -> Seq<ConstantModel> {
    constants.map_values(|c: ConstantValue| c.model())
}

impl Clone for PsoKey {
    fn clone(&self) -> (r: PsoKey)
        ensures
            r.model() == self.model(),
    {
        let mut constants: Vec<ConstantValue> = Vec::new();
        let mut i: usize = 0;
        while i < self.constants.len()
            invariant
                i <= self.constants.len(),
                constant_models(constants@) == constant_models(self.constants@).take(i as int),
            decreases self.constants.len() - i,
        {
            let c: ConstantValue = self.constants[i].clone();
            let ghost before: Seq<ConstantValue> = constants@;
            constants.push(c);
            proof {
                assert(constant_models(constants@) =~= constant_models(before).push(c.model()));
                assert(constant_models(self.constants@).take(i + 1) =~= constant_models(
                    self.constants@,
                ).take(i as int).push(c.model()));
            }
            i = i + 1;
        }
        assert(constant_models(self.constants@).take(i as int) =~= constant_models(
            self.constants@,
        ));
        PsoKey { function_name: self.function_name.clone(), constants }
    }
}

impl PsoKey {
    /// What this key says.
    pub open spec fn model(self) -> KeyModel {
        KeyModel {
            function_name: self.function_name@,
            constants: constant_models(self.constants@),
        }
    }

    /// Create a key with no function constants.
    pub fn simple(function_name: &str) -> (r: PsoKey)
        ensures
            r.model() == simple_key(function_name@),
    {
        let r: PsoKey = PsoKey { function_name: function_name.to_owned(), constants: Vec::new() };
        assert(r.model().constants =~= Seq::<ConstantModel>::empty());
        r
    }

    fn with(self, c: ConstantValue) -> (r: PsoKey)
        ensures
            r.model() == self.model().with(c.model()),
    {
        let ghost before: KeyModel = self.model();
        let mut constants: Vec<ConstantValue> = self.constants;
        constants.push(c);
        assert(constant_models(constants@) =~= before.constants.push(c.model()));
        PsoKey { function_name: self.function_name, constants }
    }

    fn word(value: u32) -> (r: Vec<u8>)
        ensures
            r@ == word_bytes(value),
    {
        let mut bytes: Vec<u8> = Vec::new();
        push_le(&mut bytes, value as u64, 4);
        assert(bytes@ =~= word_bytes(value));
        bytes
    }

    fn truth(value: bool) -> (r: Vec<u8>)
        ensures
            r@ == bool_bytes(value),
    {
        let mut bytes: Vec<u8> = Vec::new();
        bytes.push(if value { 1 } else { 0 });
        assert(bytes@ =~= bool_bytes(value));
        bytes
    }

    /// Add a uint constant by index.
    pub fn with_uint(self, index: usize, value: u32) -> (r: PsoKey)
        ensures
            r.model() == self.model().uint(index, value),
    {
        self.with(
            ConstantValue::Index { index, type_tag: ConstantType::UInt, bytes: Self::word(value) },
        )
    }

    /// Add a float constant by index, given by its bit pattern.
    pub fn with_float(self, index: usize, value: u32) -> (r: PsoKey)
        ensures
            r.model() == self.model().with(
                ConstantModel::Index {
                    index,
                    type_tag: ConstantType::Float,
                    bytes: word_bytes(value),
                },
            ),
    {
        self.with(
            ConstantValue::Index { index, type_tag: ConstantType::Float, bytes: Self::word(value) },
        )
    }

    /// Add a bool constant by index.
    pub fn with_bool(self, index: usize, value: bool) -> (r: PsoKey)
        ensures
            r.model() == self.model().boolean(index, value),
    {
        self.with(
            ConstantValue::Index { index, type_tag: ConstantType::Bool, bytes: Self::truth(value) },
        )
    }

    /// Add a uint constant by name.
    pub fn with_named_uint(self, name: &str, value: u32) -> (r: PsoKey)
        ensures
            r.model() == self.model().with(
                ConstantModel::Named {
                    name: name@,
                    type_tag: ConstantType::UInt,
                    bytes: word_bytes(value),
                },
            ),
    {
        self.with(
            ConstantValue::Named {
                name: name.to_owned(),
                type_tag: ConstantType::UInt,
                bytes: Self::word(value),
            },
        )
    }

    /// Add a float constant by name, given by its bit pattern.
    pub fn with_named_float(self, name: &str, value: u32) -> (r: PsoKey)
        ensures
            r.model() == self.model().with(
                ConstantModel::Named {
                    name: name@,
                    type_tag: ConstantType::Float,
                    bytes: word_bytes(value),
                },
            ),
    {
        self.with(
            ConstantValue::Named {
                name: name.to_owned(),
                type_tag: ConstantType::Float,
                bytes: Self::word(value),
            },
        )
    }

    /// Add a bool constant by name.
    pub fn with_named_bool(self, name: &str, value: bool) -> (r: PsoKey)
        ensures
            r.model() == self.model().with(
                ConstantModel::Named {
                    name: name@,
                    type_tag: ConstantType::Bool,
                    bytes: bool_bytes(value),
                },
            ),
    {
        self.with(
            ConstantValue::Named {
                name: name.to_owned(),
                type_tag: ConstantType::Bool,
                bytes: Self::truth(value),
            },
        )
    }

    /// Whether two keys say the same.
    pub fn same_as(&self, other: &PsoKey) -> (r: bool)
        ensures
            r == (self.model() == other.model()),
    {
        if !same_text(self.function_name.as_str(), other.function_name.as_str()) {
            return false;
        }
        if self.constants.len() != other.constants.len() {
            assert(self.model().constants.len() != other.model().constants.len());
            return false;
        }
        let mut i: usize = 0;
        while i < self.constants.len()
            invariant
                self.constants.len() == other.constants.len(),
                i <= self.constants.len(),
                forall|k: int|
                    0 <= k < i ==> (#[trigger] self.model().constants[k])
                        == other.model().constants[k],
            decreases self.constants.len() - i,
        {
            if !self.constants[i].same_as(&other.constants[i]) {
                assert(self.model().constants[i as int] != other.model().constants[i as int]);
                return false;
            }
            i = i + 1;
        }
        assert(self.model().constants =~= other.model().constants);
        true
    }
}

/// Cache of compiled compute pipelines of type `P`.
///
/// Avoids recompiling the same function+constants combination on every dispatch.
pub struct PsoCache<P> {
    entries: Vec<(PsoKey, P)>,
}

/// Where `key` stands among the entries; their number if it is not there.
pub open spec fn position_of<P>(entries: Seq<(PsoKey, P)>, key: KeyModel) -> int
    decreases entries.len(),
{
    if entries.len() == 0 || entries[0].0.model() == key {
        0
    } else {
        1 + position_of(entries.drop_first(), key)
    }
}

/// The cache once there is a pipeline under `key`: `compiled` is taken only if there was none.
pub open spec fn with_pipeline<P>(cache: Map<KeyModel, P>, key: KeyModel, compiled: P) -> Map<
    KeyModel,
    P,
> {
    if cache.contains_key(key) {
        cache
    } else {
        cache.insert(key, compiled)
    }
}

spec fn keys_differ<P>(entries: Seq<(PsoKey, P)>) -> bool {
    forall|i: int, j: int|
        0 <= i < j < entries.len() ==> (#[trigger] entries[i]).0.model() != (
        #[trigger] entries[j]).0.model()
}

impl<P> View for PsoCache<P> {
    type V = Map<KeyModel, P>;

    closed spec fn view(&self) -> Map<KeyModel, P> {
        Map::new(
            |k: KeyModel| position_of(self.entries@, k) < self.entries@.len(),
            |k: KeyModel| self.entries@[position_of(self.entries@, k)].1,
        )
    }
}

proof fn position_is_first<P>(entries: Seq<(PsoKey, P)>, key: KeyModel)
    ensures
        0 <= position_of(entries, key) <= entries.len(),
        position_of(entries, key) < entries.len() ==> entries[position_of(
            entries,
            key,
        )].0.model() == key,
        forall|i: int|
            0 <= i < position_of(entries, key) ==> (#[trigger] entries[i]).0.model() != key,
    decreases entries.len(),
{
    if entries.len() > 0 && entries[0].0.model() != key {
        position_is_first(entries.drop_first(), key);
        assert forall|i: int| 0 <= i < position_of(entries, key) implies (
        #[trigger] entries[i]).0.model() != key by {
            if i > 0 {
                assert(entries.drop_first()[i - 1].0.model() != key);
            }
        }
    }
}

proof fn position_after_push<P>(entries: Seq<(PsoKey, P)>, entry: (PsoKey, P), key: KeyModel)
    requires
        position_of(entries, entry.0.model()) == entries.len(),
    ensures
        position_of(entries.push(entry), key) == (if key == entry.0.model() {
            entries.len() as int
        } else if position_of(entries, key) == entries.len() {
            entries.len() as int + 1
        } else {
            position_of(entries, key)
        }),
    decreases entries.len(),
{
    let longer: Seq<(PsoKey, P)> = entries.push(entry);
    position_is_first(entries, entry.0.model());
    position_is_first(entries, key);
    position_is_first(longer, key);
    let p: int = position_of(longer, key);
    let q: int = position_of(entries, key);
    if q < entries.len() {
        assert(longer[q] == entries[q]);
        assert(longer[q].0.model() == key);
        assert(p <= q);
        assert(p == q) by {
            if p < q {
                assert(longer[p] == entries[p]);
            }
        }
    } else {
        assert forall|i: int| 0 <= i < entries.len() implies (#[trigger] longer[i]).0.model()
            != key by {
            assert(longer[i] == entries[i]);
        }
        assert(longer[entries.len() as int] == entry);
        if p < entries.len() {
            assert(longer[p].0.model() == key);
        }
    }
}

impl<P> PsoCache<P> {
    /// Create a new empty PSO cache.
    pub fn new() -> (r: PsoCache<P>)
        ensures
            r.wf(),
            r@ == Map::<KeyModel, P>::empty(),
    {
        let r: PsoCache<P> = PsoCache { entries: Vec::new() };
        assert(r@ =~= Map::<KeyModel, P>::empty());
        r
    }

    fn find(&self, key: &PsoKey) -> (r: usize)
        ensures
            r == position_of(self.entries@, key.model()),
            r <= self.entries.len(),
    {
        let mut i: usize = 0;
        assert(self.entries@.skip(0) =~= self.entries@);
        while i < self.entries.len()
            invariant
                i <= self.entries.len(),
                position_of(self.entries@, key.model()) == i + position_of(
                    self.entries@.skip(i as int),
                    key.model(),
                ),
            decreases self.entries.len() - i,
        {
            if self.entries[i].0.same_as(key) {
                return i;
            }
            assert(self.entries@.skip(i as int).drop_first() =~= self.entries@.skip(i + 1));
            i = i + 1;
        }
        i
    }

    /// The compiled pipeline for a key, if there is one.
    pub fn get(&self, key: &PsoKey) -> (r: Option<&P>)
        ensures
            r is Some <==> self@.contains_key(key.model()),
            r matches Some(p) ==> *p == self@[key.model()],
    {
        let at: usize = self.find(key);
        if at < self.entries.len() {
            Some(&self.entries[at].1)
        } else {
            None
        }
    }

    /// No key stands in the cache twice.
    pub closed spec fn wf(self) -> bool {
        keys_differ(self.entries@)
    }

    /// Adds a compiled pipeline under a key that is not there yet.
    fn insert(&mut self, key: &PsoKey, pso: P)
        requires
            !old(self)@.contains_key(key.model()),
        ensures
            final(self)@ == old(self)@.insert(key.model(), pso),
            final(self).entries@.len() == old(self).entries@.len() + 1,
            final(self).entries@.last().1 == pso,
            old(self).wf() ==> final(self).wf(),
    {
        let ghost before: Seq<(PsoKey, P)> = self.entries@;
        let ghost map_before: Map<KeyModel, P> = self@;
        let own: PsoKey = key.clone();
        self.entries.push((own, pso));
        proof {
            position_is_first(before, key.model());
            assert forall|k: KeyModel| #[trigger] position_of(before.push((own, pso)), k) == (if k
                == key.model() {
                before.len() as int
            } else if position_of(before, k) == before.len() {
                before.len() as int + 1
            } else {
                position_of(before, k)
            }) by {
                position_after_push(before, (own, pso), k);
            }
            assert forall|k: KeyModel| 0 <= #[trigger] position_of(before, k) <= before.len() by {
                position_is_first(before, k);
            }
            assert(self@ =~= map_before.insert(key.model(), pso));
        }
    }

    /// Get or compile a PSO for the given key.
    ///
    /// If a matching PSO exists in the cache, returns it immediately.
    /// Otherwise, compiles a new PSO with `compile` and caches it.
    pub fn get_or_compile<F: FnOnce(&PsoKey) -> P>(&mut self, key: &PsoKey, compile: F) -> (r: &P)
        requires
            !old(self)@.contains_key(key.model()) ==> call_requires(compile, (key,)),
        ensures
            old(self)@.contains_key(key.model()) ==> *r == old(self)@[key.model()],
            !old(self)@.contains_key(key.model()) ==> call_ensures(compile, (key,), *r),
            final(self)@ == with_pipeline(old(self)@, key.model(), *r),
            old(self).wf() ==> final(self).wf(),
    {
        let at: usize = self.find(key);
        if at == self.entries.len() {
            let pso: P = compile(key);
            self.insert(key, pso);
        }
        &self.entries[at].1
    }

    /// Number of cached PSOs.
    pub fn len(&self) -> (r: usize)
        requires
            self.wf(),
        ensures
            r == self@.len(),
    {
        proof {
            let keys: Seq<KeyModel> = self.entries@.map_values(|e: (PsoKey, P)| e.0.model());
            assert(keys.no_duplicates());
            keys.unique_seq_to_set();
            assert(keys.to_set() =~= self@.dom()) by {
                assert forall|k: KeyModel| #[trigger] keys.to_set().contains(k)
                    <==> self@.contains_key(k) by {
                    position_is_first(self.entries@, k);
                    if keys.contains(k) {
                        let i: int = choose|i: int| 0 <= i < keys.len() && keys[i] == k;
                        assert(self.entries@[i].0.model() == k);
                    }
                    if self@.contains_key(k) {
                        assert(keys[position_of(self.entries@, k)] == k);
                    }
                }
            }
        }
        self.entries.len()
    }

    /// Whether the cache is empty.
    pub fn is_empty(&self) -> (r: bool)
        ensures
            r == (self@ == Map::<KeyModel, P>::empty()),
    {
        proof {
            if self.entries@.len() == 0 {
                assert(self@ =~= Map::<KeyModel, P>::empty());
            } else {
                let first: KeyModel = self.entries@[0].0.model();
                assert(position_of(self.entries@, first) == 0);
                assert(self@.contains_key(first));
            }
        }
        self.entries.is_empty()
    }

    /// Prewarm the cache by compiling PSOs for common configurations: each key that is not there
    /// yet is compiled once.
    pub fn prewarm<F: Fn(&PsoKey) -> P>(&mut self, keys: &[PsoKey], compile: F)
        requires
            forall|k: &PsoKey| #[trigger] call_requires(compile, (k,)),
        ensures
            forall|i: int|
                0 <= i < keys@.len() ==> final(self)@.contains_key((#[trigger] keys@[i]).model()),
            forall|k: KeyModel| #[trigger]
                old(self)@.contains_key(k) ==> final(self)@.contains_key(k) && final(self)@[k]
                    == old(self)@[k],
            forall|k: KeyModel| #[trigger]
                final(self)@.contains_key(k) && !old(self)@.contains_key(k) ==> exists|i: int|
                    0 <= i < keys@.len() && (#[trigger] keys@[i]).model() == k && call_ensures(
                        compile,
                        (&keys@[i],),
                        final(self)@[k],
                    ),
            old(self).wf() ==> final(self).wf(),
    {
        let mut i: usize = 0;
        while i < keys.len()
            invariant
                i <= keys.len(),
                forall|k: &PsoKey| #[trigger] call_requires(compile, (k,)),
                forall|j: int|
                    0 <= j < i ==> self@.contains_key((#[trigger] keys@[j]).model()),
                forall|k: KeyModel| #[trigger]
                    old(self)@.contains_key(k) ==> self@.contains_key(k) && self@[k]
                        == old(self)@[k],
                forall|k: KeyModel| #[trigger]
                    self@.contains_key(k) && !old(self)@.contains_key(k) ==> exists|j: int|
                        0 <= j < i && (#[trigger] keys@[j]).model() == k && call_ensures(
                            compile,
                            (&keys@[j],),
                            self@[k],
                        ),
                old(self).wf() ==> self.wf(),
            decreases keys.len() - i,
        {
            let key: &PsoKey = &keys[i];
            let ghost before: Map<KeyModel, P> = self@;
            match self.get(key) {
                Some(_) => {},
                None => {
                    let pso: P = compile(key);
                    self.insert(key, pso);
                    assert(keys@[i as int].model() == key.model());
                },
            }
            i = i + 1;
        }
    }

    /// Clear all cached PSOs.
    pub fn clear(&mut self)
        ensures
            final(self).wf(),
            final(self)@ == Map::<KeyModel, P>::empty(),
    {
        self.entries.clear();
        assert(self@ =~= Map::<KeyModel, P>::empty());
    }
}

/// A key is compiled once: what was got under it is there from then on, whatever is asked for
/// under other keys.
pub proof fn key_is_compiled_once<P>(
    cache: Map<KeyModel, P>,
    key: KeyModel,
    compiled: P,
    other: KeyModel,
    later: P,
)
    ensures
        ({
            let got = with_pipeline(cache, key, compiled);
            let after = with_pipeline(got, other, later);
            &&& after.contains_key(key)
            &&& after[key] == got[key]
            &&& with_pipeline(after, key, later) == after
        }),
{
}

/// Different words have different bytes, and so have the two truth values.
pub proof fn constant_bytes_are_faithful(a: u32, b: u32)
    ensures
        word_bytes(a) == word_bytes(b) <==> a == b,
        bool_bytes(true) != bool_bytes(false),
{
    byte_ranges();
    le_round_trip(a as nat, 4);
    le_round_trip(b as nat, 4);
    assert(bool_bytes(true)[0] == 1 && bool_bytes(false)[0] == 0);
}

/// Keys are equal exactly when they are built from the same parameters: the same key before, the
/// same index and the same value.
pub proof fn keys_are_faithful(
    a: KeyModel,
    index_a: usize,
    value_a: u32,
    b: KeyModel,
    index_b: usize,
    value_b: u32,
)
    ensures
        a.uint(index_a, value_a) == b.uint(index_b, value_b) <==> (a == b && index_a == index_b
            && value_a == value_b),
{
    constant_bytes_are_faithful(value_a, value_b);
    let x: KeyModel = a.uint(index_a, value_a);
    let y: KeyModel = b.uint(index_b, value_b);
    if x == y {
        assert(a.constants =~= x.constants.drop_last());
        assert(b.constants =~= y.constants.drop_last());
        assert(x.constants.last() == y.constants.last());
    }
}

} // verus!
