//! Synthetic GGUF files, built in memory.

use super::bytes::{concat, concat_push, le_bytes, push_le};
use super::format::{value_at, DEFAULT_ALIGNMENT, GGUF_MAGIC};
use super::metadata::{GgufMetadataValueType, MetaValue};
use super::parser::aligned;
use super::quantize::GgufType;
use super::spelling::{
    array_bytes, array_bytes_spell, bool_byte_spells, spells, text_bytes, text_bytes_spell,
    word_bytes_spell,
};
use super::tensor::{dims_fit, dims_product, multiply_dims};
use vstd::prelude::*;
use vstd::slice::slice_to_vec;
use vstd::string::*;
use vstd::utf8::*;

verus! {

/// A metadata entry to be written: the value is given by its type and its bytes.
#[verifier::ext_equal]
pub struct EntryModel {
    pub key: Seq<char>,
    pub vtype: GgufMetadataValueType,
    pub bytes: Seq<u8>,
}

/// A tensor to be written.
#[verifier::ext_equal]
pub struct TensorInput {
    pub name: Seq<char>,
    pub shape: Seq<u64>,
    pub gguf_type: GgufType,
    pub data: Seq<u8>,
}

/// What a builder will write.
#[verifier::ext_equal]
pub struct BuilderModel {
    pub version: u32,
    pub metadata: Seq<EntryModel>,
    pub tensors: Seq<TensorInput>,
    pub alignment: int,
}

impl EntryModel {
    /// The value that the bytes spell.
    pub open spec fn value(self) -> MetaValue {
        value_at(self.bytes, 0, self.vtype)->Ok_0.0
    }

    /// Whether the bytes are those of one value, and nothing else.
    pub open spec fn spelled(self) -> bool {
        spells(self.bytes, self.vtype, self.value())
    }

    /// How the entry is written: key, number of the value type, value.
    pub open spec fn written(self) -> Seq<u8> {
        text_bytes(self.key) + le_bytes(self.vtype.id() as nat, 4) + self.bytes
    }
}

impl BuilderModel {
    pub open spec fn well_formed(self) -> bool {
        &&& forall|i: int|
            0 <= i < self.metadata.len() ==> (#[trigger] self.metadata[i]).spelled()
        &&& self.alignment == 0 || self.alignment == DEFAULT_ALIGNMENT
    }

    /// Whether the file can be held in memory.
    pub open spec fn fits(self) -> bool {
        &&& self.metadata.len() <= usize::MAX
        &&& self.tensors.len() <= usize::MAX
        &&& built(self).len() <= usize::MAX
    }

    /// The model with one more metadata entry.
    pub open spec fn with_entry(self, e: EntryModel) -> BuilderModel {
        BuilderModel { metadata: self.metadata.push(e), ..self }
    }

    /// The model with one more tensor.
    pub open spec fn with_tensor(self, t: TensorInput) -> BuilderModel {
        BuilderModel { tensors: self.tensors.push(t), ..self }
    }
}

/// `n` zero bytes.
pub open spec fn zeros(n: int) -> Seq<u8> {
    Seq::new(n as nat, |i: int| 0u8)
}

/// `bytes` with zeros behind them up to the next alignment boundary.
pub open spec fn padded(bytes: Seq<u8>, alignment: int) -> Seq<u8> {
    bytes + zeros(aligned(bytes.len() as int, alignment) - bytes.len())
}

/// How a list of metadata entries is written.
pub open spec fn entries_bytes(entries: Seq<EntryModel>) -> Seq<u8> {
    concat(entries.map_values(|e: EntryModel| e.written()))
}

/// How dimensions are written.
pub open spec fn dims_bytes(shape: Seq<u64>) -> Seq<u8> {
    concat(shape.map_values(|d: u64| le_bytes(d as nat, 8)))
}

/// How an array of 32-bit floats is written.
pub open spec fn float_array_bytes(values: Seq<u32>) -> Seq<u8> {
    array_bytes(
        GgufMetadataValueType::Float32,
        values.map_values(|v: u32| le_bytes(v as nat, 4)),
    )
}

/// How an array of strings is written.
pub open spec fn text_array_bytes(texts: Seq<Seq<char>>) -> Seq<u8> {
    array_bytes(
        GgufMetadataValueType::String,
        texts.map_values(|t: Seq<char>| text_bytes(t)),
    )
}

/// The data section: each tensor's data, starting at an alignment boundary.
pub open spec fn section(tensors: Seq<TensorInput>, alignment: int) -> Seq<u8>
    decreases tensors.len(),
{
    if tensors.len() == 0 {
        Seq::empty()
    } else {
        padded(section(tensors.drop_last(), alignment), alignment) + tensors.last().data
    }
}

/// Where the data of tensor `i` starts in the data section.
pub open spec fn data_start(tensors: Seq<TensorInput>, alignment: int, i: int) -> int {
    padded(section(tensors.take(i), alignment), alignment).len() as int
}

/// How a tensor description is written.
pub open spec fn info_bytes(t: TensorInput, offset: int) -> Seq<u8> {
    text_bytes(t.name) + le_bytes((t.shape.len() as u32) as nat, 4) + dims_bytes(t.shape)
        + le_bytes(t.gguf_type.id() as nat, 4) + le_bytes(offset as nat, 8)
}

/// How each tensor description is written, for the first `n` tensors.
pub open spec fn info_pieces(tensors: Seq<TensorInput>, alignment: int, n: nat) -> Seq<Seq<u8>> {
    Seq::new(n, |i: int| info_bytes(tensors[i], data_start(tensors, alignment, i)))
}

/// How the tensor descriptions are written.
pub open spec fn infos_bytes(tensors: Seq<TensorInput>, alignment: int) -> Seq<u8> {
    concat(info_pieces(tensors, alignment, tensors.len()))
}

/// Everything in front of the data section, without the padding.
pub open spec fn header_bytes(b: BuilderModel) -> Seq<u8> {
    le_bytes(GGUF_MAGIC as nat, 4) + le_bytes(b.version as nat, 4) + le_bytes(b.tensors.len(), 8)
        + le_bytes(b.metadata.len(), 8) + entries_bytes(b.metadata) + infos_bytes(
        b.tensors,
        b.alignment,
    )
}

/// The bytes of the whole file.
pub open spec fn built(b: BuilderModel) -> Seq<u8> {
    padded(header_bytes(b), b.alignment) + section(b.tensors, b.alignment)
}

/// Appends zeros up to the next alignment boundary.
fn pad(buf: &mut Vec<u8>, alignment: usize)
    requires
        alignment == 0 || alignment == DEFAULT_ALIGNMENT,
    ensures
        final(buf)@ == padded(old(buf)@, alignment as int),
{
    if alignment == 0 {
        assert(padded(buf@, 0) =~= buf@);
        return;
    }
    let ghost before: Seq<u8> = buf@;
    while buf.len() % 32 != 0
        invariant
            buf@ == before + zeros(buf@.len() - before.len()),
            before.len() <= buf@.len(),
            before.len() % 32 == 0 ==> buf@.len() == before.len(),
            buf@.len() <= (before.len() + 31) / 32 * 32,
        decreases (before.len() + 31) / 32 * 32 - buf@.len(),
    {
        buf.push(0);
        assert(buf@ =~= before + zeros(buf@.len() - before.len()));
    }
}

/// Builder for creating synthetic GGUF files in-memory.
pub struct GgufBuilder {
    version: u32,
    metadata: Vec<(String, GgufMetadataValueType, Vec<u8>)>,
    tensors: Vec<(String, Vec<u64>, GgufType, Vec<u8>)>,
    alignment: usize,
}

spec fn entry_view(e: (String, GgufMetadataValueType, Vec<u8>)) -> EntryModel {
    EntryModel { key: e.0@, vtype: e.1, bytes: e.2@ }
}

spec fn tensor_view(t: (String, Vec<u64>, GgufType, Vec<u8>)) -> TensorInput {
    TensorInput { name: t.0@, shape: t.1@, gguf_type: t.2, data: t.3@ }
}

impl Default for GgufBuilder {
    /// A builder for version 0 that aligns nothing.
    fn default() -> (r: GgufBuilder)
        ensures
            r.model() == (BuilderModel {
                version: 0,
                metadata: Seq::empty(),
                tensors: Seq::empty(),
                alignment: 0,
            }),
    {
        let r: GgufBuilder = GgufBuilder {
            version: 0,
            metadata: Vec::new(),
            tensors: Vec::new(),
            alignment: 0,
        };
        assert(r.model().metadata =~= Seq::<EntryModel>::empty());
        assert(r.model().tensors =~= Seq::<TensorInput>::empty());
        r
    }
}

impl GgufBuilder {
    #[verifier::type_invariant]
    spec fn inv(self) -> bool {
        self.model().well_formed()
    }

    /// What this builder will write.
    pub closed spec fn model(self) -> BuilderModel {
        BuilderModel {
            version: self.version,
            metadata: self.metadata@.map_values(
                |e: (String, GgufMetadataValueType, Vec<u8>)| entry_view(e),
            ),
            tensors: self.tensors@.map_values(
                |t: (String, Vec<u64>, GgufType, Vec<u8>)| tensor_view(t),
            ),
            alignment: self.alignment as int,
        }
    }

    /// A builder for version 3 with nothing in it yet.
    pub fn new() -> (r: GgufBuilder)
        ensures
            r.model() == (BuilderModel {
                version: 3,
                metadata: Seq::empty(),
                tensors: Seq::empty(),
                alignment: DEFAULT_ALIGNMENT as int,
            }),
    {
        let r: GgufBuilder = GgufBuilder {
            version: 3,
            metadata: Vec::new(),
            tensors: Vec::new(),
            alignment: DEFAULT_ALIGNMENT,
        };
        assert(r.model().metadata =~= Seq::<EntryModel>::empty());
        assert(r.model().tensors =~= Seq::<TensorInput>::empty());
        r
    }

    /// Sets the version that is written.
    pub fn version(self, v: u32) -> (r: GgufBuilder)
        ensures
            r.model() == (BuilderModel { version: v, ..self.model() }),
    {
        proof {
            use_type_invariant(&self);
        }
        GgufBuilder {
            version: v,
            metadata: self.metadata,
            tensors: self.tensors,
            alignment: self.alignment,
        }
    }

    fn write_string(buf: &mut Vec<u8>, s: &str)
        ensures
            final(buf)@ == old(buf)@ + text_bytes(s@),
            encode_utf8(s@).len() <= usize::MAX,
    {
        let bytes: &[u8] = s.as_bytes();
        push_le(buf, bytes.len() as u64, 8);
        buf.extend_from_slice(bytes);
        assert(buf@ =~= old(buf)@ + text_bytes(s@));
    }

    fn add_entry(self, key: &str, vtype: GgufMetadataValueType, bytes: Vec<u8>) -> (r: GgufBuilder)
        requires
            (EntryModel { key: key@, vtype, bytes: bytes@ }).spelled(),
        ensures
            r.model() == self.model().with_entry(EntryModel { key: key@, vtype, bytes: bytes@ }),
    {
        proof {
            use_type_invariant(&self);
        }
        let ghost before: BuilderModel = self.model();
        let ghost e: EntryModel = EntryModel { key: key@, vtype, bytes: bytes@ };
        let mut metadata: Vec<(String, GgufMetadataValueType, Vec<u8>)> = self.metadata;
        metadata.push((key.to_owned(), vtype, bytes));
        proof {
            let views: Seq<EntryModel> = metadata@.map_values(
                |x: (String, GgufMetadataValueType, Vec<u8>)| entry_view(x),
            );
            assert(views =~= before.metadata.push(e));
            assert forall|i: int| 0 <= i < views.len() implies (#[trigger] views[i]).spelled() by {
                if i < before.metadata.len() {
                    assert(before.metadata[i].spelled());
                }
            }
        }
        GgufBuilder {
            version: self.version,
            metadata,
            tensors: self.tensors,
            alignment: self.alignment,
        }
    }

    /// Adds a string entry.
    pub fn add_string(self, key: &str, value: &str) -> (r: GgufBuilder)
        ensures
            r.model() == self.model().with_entry(
                EntryModel {
                    key: key@,
                    vtype: GgufMetadataValueType::String,
                    bytes: text_bytes(value@),
                },
            ),
            spells(
                text_bytes(value@),
                GgufMetadataValueType::String,
                MetaValue::Text(value@),
            ),
    {
        let mut bytes: Vec<u8> = Vec::new();
        Self::write_string(&mut bytes, value);
        proof {
            assert(bytes@ =~= text_bytes(value@));
            text_bytes_spell(value@);
        }
        self.add_entry(key, GgufMetadataValueType::String, bytes)
    }

    /// Adds a 32-bit integer entry.
    pub fn add_u32(self, key: &str, value: u32) -> (r: GgufBuilder)
        ensures
            r.model() == self.model().with_entry(
                EntryModel {
                    key: key@,
                    vtype: GgufMetadataValueType::Uint32,
                    bytes: le_bytes(value as nat, 4),
                },
            ),
            spells(
                le_bytes(value as nat, 4),
                GgufMetadataValueType::Uint32,
                MetaValue::Uint32(value),
            ),
    {
        let mut bytes: Vec<u8> = Vec::new();
        push_le(&mut bytes, value as u64, 4);
        proof {
            assert(bytes@ =~= le_bytes(value as nat, 4));
            word_bytes_spell(value);
        }
        self.add_entry(key, GgufMetadataValueType::Uint32, bytes)
    }

    /// Adds a 32-bit float entry, given by its bit pattern.
    pub fn add_f32(self, key: &str, value: u32) -> (r: GgufBuilder)
        ensures
            r.model() == self.model().with_entry(
                EntryModel {
                    key: key@,
                    vtype: GgufMetadataValueType::Float32,
                    bytes: le_bytes(value as nat, 4),
                },
            ),
            spells(
                le_bytes(value as nat, 4),
                GgufMetadataValueType::Float32,
                MetaValue::Float32(value),
            ),
    {
        let mut bytes: Vec<u8> = Vec::new();
        push_le(&mut bytes, value as u64, 4);
        proof {
            assert(bytes@ =~= le_bytes(value as nat, 4));
            word_bytes_spell(value);
        }
        self.add_entry(key, GgufMetadataValueType::Float32, bytes)
    }

    /// Adds a bool entry.
    pub fn add_bool(self, key: &str, value: bool) -> (r: GgufBuilder)
        ensures
            r.model() == self.model().with_entry(
                EntryModel {
                    key: key@,
                    vtype: GgufMetadataValueType::Bool,
                    bytes: seq![if value { 1u8 } else { 0u8 }],
                },
            ),
            spells(
                seq![if value { 1u8 } else { 0u8 }],
                GgufMetadataValueType::Bool,
                MetaValue::Bool(value),
            ),
    {
        let mut bytes: Vec<u8> = Vec::new();
        bytes.push(if value { 1 } else { 0 });
        proof {
            assert(bytes@ =~= seq![if value { 1u8 } else { 0u8 }]);
            bool_byte_spells(value);
        }
        self.add_entry(key, GgufMetadataValueType::Bool, bytes)
    }

    /// Adds an array of 32-bit floats, given by their bit patterns.
    pub fn add_f32_array(self, key: &str, values: &[u32]) -> (r: GgufBuilder)
        ensures
            r.model() == self.model().with_entry(
                EntryModel {
                    key: key@,
                    vtype: GgufMetadataValueType::Array,
                    bytes: float_array_bytes(values@),
                },
            ),
            spells(
                float_array_bytes(values@),
                GgufMetadataValueType::Array,
                MetaValue::Array(values@.map_values(|v: u32| MetaValue::Float32(v))),
            ),
    {
        let ghost pieces: Seq<Seq<u8>> = values@.map_values(|v: u32| le_bytes(v as nat, 4));
        let mut bytes: Vec<u8> = Vec::new();
        push_le(&mut bytes, GgufMetadataValueType::Float32.to_u32() as u64, 4);
        push_le(&mut bytes, values.len() as u64, 8);
        let ghost head: Seq<u8> = bytes@;
        assert(head =~= le_bytes(GgufMetadataValueType::Float32.id() as nat, 4) + le_bytes(
            pieces.len(),
            8,
        ));
        let mut i: usize = 0;
        assert(pieces.take(0) =~= Seq::<Seq<u8>>::empty());
        assert(bytes@ =~= head + concat(pieces.take(0)));
        while i < values.len()
            invariant
                i <= values.len(),
                pieces == values@.map_values(|v: u32| le_bytes(v as nat, 4)),
                bytes@ == head + concat(pieces.take(i as int)),
            decreases values.len() - i,
        {
            push_le(&mut bytes, values[i] as u64, 4);
            proof {
                assert(pieces.take(i + 1) =~= pieces.take(i as int).push(pieces[i as int]));
                concat_push(pieces.take(i as int), pieces[i as int]);
                assert(bytes@ =~= head + concat(pieces.take(i + 1)));
            }
            i = i + 1;
        }
        proof {
            assert(pieces.take(pieces.len() as int) =~= pieces);
            let items: Seq<MetaValue> = values@.map_values(|v: u32| MetaValue::Float32(v));
            assert forall|k: int| 0 <= k < pieces.len() implies #[trigger] spells(
                pieces[k],
                GgufMetadataValueType::Float32,
                items[k],
            ) by {
                word_bytes_spell(values@[k]);
            }
            array_bytes_spell(GgufMetadataValueType::Float32, pieces, items);
        }
        self.add_entry(key, GgufMetadataValueType::Array, bytes)
    }

    /// Adds an array of strings.
    pub fn add_string_array(self, key: &str, values: &[&str]) -> (r: GgufBuilder)
        ensures
            r.model() == self.model().with_entry(
                EntryModel {
                    key: key@,
                    vtype: GgufMetadataValueType::Array,
                    bytes: text_array_bytes(values@.map_values(|s: &str| s@)),
                },
            ),
            spells(
                text_array_bytes(values@.map_values(|s: &str| s@)),
                GgufMetadataValueType::Array,
                MetaValue::Array(values@.map_values(|s: &str| MetaValue::Text(s@))),
            ),
    {
        let ghost texts: Seq<Seq<char>> = values@.map_values(|s: &str| s@);
        let ghost pieces: Seq<Seq<u8>> = texts.map_values(|t: Seq<char>| text_bytes(t));
        let mut bytes: Vec<u8> = Vec::new();
        push_le(&mut bytes, GgufMetadataValueType::String.to_u32() as u64, 4);
        push_le(&mut bytes, values.len() as u64, 8);
        let ghost head: Seq<u8> = bytes@;
        assert(head =~= le_bytes(GgufMetadataValueType::String.id() as nat, 4) + le_bytes(
            pieces.len(),
            8,
        ));
        let mut i: usize = 0;
        assert(pieces.take(0) =~= Seq::<Seq<u8>>::empty());
        assert(bytes@ =~= head + concat(pieces.take(0)));
        while i < values.len()
            invariant
                i <= values.len(),
                texts == values@.map_values(|s: &str| s@),
                pieces == texts.map_values(|t: Seq<char>| text_bytes(t)),
                bytes@ == head + concat(pieces.take(i as int)),
                forall|k: int|
                    0 <= k < i ==> encode_utf8(#[trigger] texts[k]).len() <= usize::MAX,
            decreases values.len() - i,
        {
            Self::write_string(&mut bytes, values[i]);
            proof {
                assert(pieces.take(i + 1) =~= pieces.take(i as int).push(pieces[i as int]));
                concat_push(pieces.take(i as int), pieces[i as int]);
                assert(bytes@ =~= head + concat(pieces.take(i + 1)));
            }
            i = i + 1;
        }
        proof {
            assert(pieces.take(pieces.len() as int) =~= pieces);
            let items: Seq<MetaValue> = values@.map_values(|s: &str| MetaValue::Text(s@));
            assert forall|k: int| 0 <= k < pieces.len() implies #[trigger] spells(
                pieces[k],
                GgufMetadataValueType::String,
                items[k],
            ) by {
                assert(encode_utf8(texts[k]).len() <= usize::MAX);
                text_bytes_spell(texts[k]);
            }
            array_bytes_spell(GgufMetadataValueType::String, pieces, items);
        }
        self.add_entry(key, GgufMetadataValueType::Array, bytes)
    }

    /// Add a tensor with explicit data.
    pub fn add_tensor(self, name: &str, shape: &[u64], dtype: GgufType, data: Vec<u8>) -> (r:
        GgufBuilder)
        ensures
            r.model() == self.model().with_tensor(
                TensorInput { name: name@, shape: shape@, gguf_type: dtype, data: data@ },
            ),
    {
        proof {
            use_type_invariant(&self);
        }
        let ghost before: BuilderModel = self.model();
        let ghost t: TensorInput = TensorInput {
            name: name@,
            shape: shape@,
            gguf_type: dtype,
            data: data@,
        };
        let mut tensors: Vec<(String, Vec<u64>, GgufType, Vec<u8>)> = self.tensors;
        tensors.push((name.to_owned(), slice_to_vec(shape), dtype, data));
        assert(self.metadata@.map_values(
            |e: (String, GgufMetadataValueType, Vec<u8>)| entry_view(e),
        ) =~= before.metadata);
        assert(before.well_formed());
        let r: GgufBuilder = GgufBuilder {
            version: self.version,
            metadata: self.metadata,
            tensors,
            alignment: self.alignment,
        };
        assert(r.model().tensors =~= before.tensors.push(t));
        r
    }

    /// Add a tensor with zero-filled data of the appropriate size.
    pub fn add_tensor_zeros(self, name: &str, shape: &[u64], dtype: GgufType) -> (r: GgufBuilder)
        requires
            dims_fit(shape@),
            dtype.bytes_for((dims_product(shape@) as u64 as usize) as nat) <= usize::MAX,
        ensures
            r.model() == self.model().with_tensor(
                TensorInput {
                    name: name@,
                    shape: shape@,
                    gguf_type: dtype,
                    data: zeros(
                        dtype.bytes_for((dims_product(shape@) as u64 as usize) as nat) as int,
                    ),
                },
            ),
    {
        let n_elements: u64 = multiply_dims(shape);
        let byte_size: usize = dtype.tensor_byte_size(n_elements as usize);
        let data: Vec<u8> = vec![0u8; byte_size];
        assert(data@ =~= zeros(byte_size as int));
        self.add_tensor(name, shape, dtype, data)
    }

    fn write_dims(buf: &mut Vec<u8>, shape: &[u64])
        ensures
            final(buf)@ == old(buf)@ + dims_bytes(shape@),
    {
        let ghost pieces: Seq<Seq<u8>> = shape@.map_values(|d: u64| le_bytes(d as nat, 8));
        let mut i: usize = 0;
        assert(pieces.take(0) =~= Seq::<Seq<u8>>::empty());
        assert(buf@ =~= old(buf)@ + concat(pieces.take(0)));
        while i < shape.len()
            invariant
                i <= shape.len(),
                pieces == shape@.map_values(|d: u64| le_bytes(d as nat, 8)),
                buf@ == old(buf)@ + concat(pieces.take(i as int)),
            decreases shape.len() - i,
        {
            push_le(buf, shape[i], 8);
            proof {
                assert(pieces.take(i + 1) =~= pieces.take(i as int).push(pieces[i as int]));
                concat_push(pieces.take(i as int), pieces[i as int]);
                assert(buf@ =~= old(buf)@ + concat(pieces.take(i + 1)));
            }
            i = i + 1;
        }
        assert(pieces.take(pieces.len() as int) =~= pieces);
    }

    fn write_entries(&self, buf: &mut Vec<u8>)
        ensures
            final(buf)@ == old(buf)@ + entries_bytes(self.model().metadata),
    {
        let ghost entries: Seq<EntryModel> = self.model().metadata;
        let ghost pieces: Seq<Seq<u8>> = entries.map_values(|e: EntryModel| e.written());
        let mut i: usize = 0;
        assert(pieces.take(0) =~= Seq::<Seq<u8>>::empty());
        assert(buf@ =~= old(buf)@ + concat(pieces.take(0)));
        while i < self.metadata.len()
            invariant
                i <= self.metadata.len(),
                entries == self.model().metadata,
                pieces == entries.map_values(|e: EntryModel| e.written()),
                buf@ == old(buf)@ + concat(pieces.take(i as int)),
            decreases self.metadata.len() - i,
        {
            let entry: &(String, GgufMetadataValueType, Vec<u8>) = &self.metadata[i];
            Self::write_string(buf, entry.0.as_str());
            push_le(buf, entry.1.to_u32() as u64, 4);
            buf.extend_from_slice(entry.2.as_slice());
            proof {
                assert(pieces[i as int] == entry_view(*entry).written());
                assert(pieces.take(i + 1) =~= pieces.take(i as int).push(pieces[i as int]));
                concat_push(pieces.take(i as int), pieces[i as int]);
                assert(buf@ =~= old(buf)@ + concat(pieces.take(i + 1)));
            }
            i = i + 1;
        }
        assert(pieces.take(pieces.len() as int) =~= pieces);
    }

    /// Writes the tensor descriptions and the data section, each to a buffer of its own.
    fn write_tensors(&self) -> (r: (Vec<u8>, Vec<u8>))
        ensures
            r.0@ == infos_bytes(self.model().tensors, self.model().alignment),
            r.1@ == section(self.model().tensors, self.model().alignment),
    {
        proof {
            use_type_invariant(self);
        }
        let ghost tensors: Seq<TensorInput> = self.model().tensors;
        let ghost alignment: int = self.alignment as int;
        let ghost pieces: Seq<Seq<u8>> = info_pieces(tensors, alignment, tensors.len());
        let mut infos: Vec<u8> = Vec::new();
        let mut data: Vec<u8> = Vec::new();
        let mut i: usize = 0;
        assert(pieces.take(0) =~= Seq::<Seq<u8>>::empty());
        assert(tensors.take(0) =~= Seq::<TensorInput>::empty());
        while i < self.tensors.len()
            invariant
                i <= self.tensors.len(),
                self.alignment == 0 || self.alignment == DEFAULT_ALIGNMENT,
                alignment == self.alignment,
                tensors == self.model().tensors,
                pieces == info_pieces(tensors, alignment, tensors.len()),
                infos@ == concat(pieces.take(i as int)),
                data@ == section(tensors.take(i as int), alignment),
            decreases self.tensors.len() - i,
        {
            let tensor: &(String, Vec<u64>, GgufType, Vec<u8>) = &self.tensors[i];
            let ghost infos_before: Seq<u8> = infos@;
            pad(&mut data, self.alignment);
            let offset: u64 = data.len() as u64;
            assert(offset == data_start(tensors, alignment, i as int));
            Self::write_string(&mut infos, tensor.0.as_str());
            push_le(&mut infos, (tensor.1.len() as u32) as u64, 4);
            Self::write_dims(&mut infos, tensor.1.as_slice());
            push_le(&mut infos, tensor.2.to_u32() as u64, 4);
            push_le(&mut infos, offset, 8);
            data.extend_from_slice(tensor.3.as_slice());
            proof {
                assert(tensors[i as int] == tensor_view(*tensor));
                assert(pieces[i as int] == info_bytes(tensor_view(*tensor), offset as int));
                assert(infos@ =~= infos_before + pieces[i as int]);
                assert(pieces.take(i + 1) =~= pieces.take(i as int).push(pieces[i as int]));
                concat_push(pieces.take(i as int), pieces[i as int]);
                assert(tensors.take(i + 1).drop_last() =~= tensors.take(i as int));
                assert(tensors.take(i + 1).last() == tensors[i as int]);
                assert(data@ =~= section(tensors.take(i + 1), alignment));
            }
            i = i + 1;
        }
        assert(pieces.take(pieces.len() as int) =~= pieces);
        assert(tensors.take(tensors.len() as int) =~= tensors);
        (infos, data)
    }

    /// Build the GGUF binary.
    pub fn build(self) -> (r: Vec<u8>)
        ensures
            r@ == built(self.model()),
            self.model().well_formed(),
            self.model().fits(),
    {
        proof {
            use_type_invariant(&self);
        }
        let ghost b: BuilderModel = self.model();
        let mut buf: Vec<u8> = Vec::new();
        push_le(&mut buf, GGUF_MAGIC as u64, 4);
        push_le(&mut buf, self.version as u64, 4);
        push_le(&mut buf, self.tensors.len() as u64, 8);
        push_le(&mut buf, self.metadata.len() as u64, 8);
        self.write_entries(&mut buf);
        let (infos, data) = self.write_tensors();
        buf.extend_from_slice(infos.as_slice());
        assert(buf@ =~= header_bytes(b));
        pad(&mut buf, self.alignment);
        buf.extend_from_slice(data.as_slice());
        assert(buf.len() == built(b).len());
        buf
    }
}

} // verus!
