//! What is parsed from a file that was built.

use super::builder::{
    built, data_start, header_bytes, section, zeros, BuilderModel, EntryModel, GgufBuilder,
    TensorInput,
};
use super::bytes::{byte_ranges, le_bytes, le_bytes_len, le_round_trip};
use super::file_laws::starts_file;
use super::format::{GgufError, GGUF_MAGIC};
use super::metadata::MetaValue;
use super::parser::{aligned_is_least_multiple, GgufFile};
use super::quantize::GgufType;
use super::roundtrip::{
    built_file_parses_back, entries_read, entry_read, header_is_read, header_parts_stand,
    section_holds, stand_at, tensor_read,
};
use super::tensor::{dims_product, tensor_models};
use crate::float_laws::{bytes_spell, eight_bytes, four_bytes};
use vstd::prelude::*;

verus! {

/// Whether a built file can be parsed: its version is one that files have, and no tensor has more
/// dimensions than can be counted.
pub open spec fn can_be_parsed(b: BuilderModel) -> bool {
    &&& b.version == 2 || b.version == 3
    &&& forall|k: int|
        0 <= k < b.tensors.len() ==> (#[trigger] b.tensors[k]).shape.len() <= u32::MAX
}

/// A new builder writes version 3, unless it is told another, and has nothing to write yet.
pub proof fn builders_start_empty(b: GgufBuilder, v: u32, other: GgufBuilder)
    requires
        call_ensures(GgufBuilder::new, (), b),
        call_ensures(GgufBuilder::version, (b, v), other),
    ensures
        b.model().version == 3,
        b.model().metadata.len() == 0,
        b.model().tensors.len() == 0,
        b.model().alignment == 32,
        other.model().version == v,
        other.model().metadata.len() == 0,
        other.model().tensors.len() == 0,
        other.model().alignment == 32,
{
}

proof fn written_numbers(data: Seq<u8>, at: int, v: nat)
    requires
        0 <= at,
    ensures
        v < 0x1_0000_0000 && stand_at(le_bytes(v, 4), data, at) ==> four_bytes(data, at) == v,
        v < 0x1_0000_0000_0000_0000 && stand_at(le_bytes(v, 8), data, at) ==> eight_bytes(data, at)
            == v,
{
    byte_ranges();
    le_bytes_len(v, 4);
    le_bytes_len(v, 8);
    if v < 0x1_0000_0000 {
        le_round_trip(v, 4);
    }
    if v < 0x1_0000_0000_0000_0000 {
        le_round_trip(v, 8);
    }
    bytes_spell(data, at);
}

proof fn magic_is_gguf()
    ensures
        le_bytes(GGUF_MAGIC as nat, 4) == seq![0x47u8, 0x47u8, 0x55u8, 0x46u8],
{
    reveal_with_fuel(le_bytes, 5);
    assert(le_bytes(GGUF_MAGIC as nat, 4) =~= seq![0x47u8, 0x47u8, 0x55u8, 0x46u8]);
}

/// A built file starts as a model file does, with the builder's version and its numbers of tensors
/// and entries.
pub proof fn built_files_start_as_model_files(b: GgufBuilder, bytes: Vec<u8>)
    requires
        call_ensures(GgufBuilder::build, (b,), bytes),
    ensures
        starts_file(
            bytes@,
            b.model().version as nat,
            b.model().tensors.len(),
            b.model().metadata.len(),
        ),
{
    let m: BuilderModel = b.model();
    header_parts_stand(m);
    le_bytes_len(m.metadata.len(), 8);
    numbers_start_file(bytes@, m.version, m.tensors.len(), m.metadata.len());
}

proof fn numbers_start_file(data: Seq<u8>, version: u32, tensor_count: nat, entry_count: nat)
    requires
        stand_at(le_bytes(GGUF_MAGIC as nat, 4), data, 0),
        stand_at(le_bytes(version as nat, 4), data, 4),
        stand_at(le_bytes(tensor_count, 8), data, 8),
        stand_at(le_bytes(entry_count, 8), data, 16),
        tensor_count <= u64::MAX,
        entry_count <= u64::MAX,
    ensures
        starts_file(data, version as nat, tensor_count, entry_count),
{
    le_bytes_len(entry_count, 8);
    written_numbers(data, 4, version as nat);
    written_numbers(data, 8, tensor_count);
    written_numbers(data, 16, entry_count);
    magic_is_gguf();
    let start: Seq<u8> = data.subrange(0, 4);
    assert(start[0] == data[0] && start[1] == data[1] && start[2] == data[2] && start[3]
        == data[3]);
}

/// Whether two files have the same under `other`, unless that is `key`, and the same tensors.
pub open spec fn only_key_differs(
    before: GgufFile,
    file: GgufFile,
    key: Seq<char>,
    other: Seq<char>,
) -> bool {
    &&& other != key ==> file.metadata@.contains_key(other) == before.metadata@.contains_key(other)
    &&& other != key && before.metadata@.contains_key(other) ==> file.metadata@[other]
        == before.metadata@[other]
    &&& file.version == before.version
    &&& tensor_models(file.tensors@) == tensor_models(before.tensors@)
}

proof fn one_more_entry(
    b: GgufBuilder,
    e: EntryModel,
    with: GgufBuilder,
    bytes_before: Vec<u8>,
    before: GgufFile,
    bytes: Vec<u8>,
    file: GgufFile,
    other: Seq<char>,
)
    requires
        with.model() == b.model().with_entry(e),
        can_be_parsed(b.model()),
        call_ensures(GgufBuilder::build, (b,), bytes_before),
        call_ensures(GgufFile::from_bytes, (bytes_before,), Ok(before)),
        call_ensures(GgufBuilder::build, (with,), bytes),
        call_ensures(GgufFile::from_bytes, (bytes,), Ok(file)),
    ensures
        file.metadata@.contains_key(e.key),
        file.metadata@[e.key] == e.value(),
        only_key_differs(before, file, e.key, other),
{
    let m: BuilderModel = b.model();
    let n: BuilderModel = with.model();
    header_is_read(m);
    header_is_read(n);
    assert(entries_read(n.metadata) =~= entries_read(m.metadata).push(entry_read(e)));
    assert(entries_read(n.metadata).drop_last() =~= entries_read(m.metadata));
    assert(entries_read(n.metadata).last() == entry_read(e));
}

/// A 32-bit number that was added is parsed back under its key, and nothing else is changed.
pub proof fn added_u32_is_parsed_back(
    b: GgufBuilder,
    key: &str,
    value: u32,
    with: GgufBuilder,
    bytes_before: Vec<u8>,
    before: GgufFile,
    bytes: Vec<u8>,
    file: GgufFile,
    other: Seq<char>,
)
    requires
        call_ensures(GgufBuilder::add_u32, (b, key, value), with),
        can_be_parsed(b.model()),
        call_ensures(GgufBuilder::build, (b,), bytes_before),
        call_ensures(GgufFile::from_bytes, (bytes_before,), Ok(before)),
        call_ensures(GgufBuilder::build, (with,), bytes),
        call_ensures(GgufFile::from_bytes, (bytes,), Ok(file)),
    ensures
        file.metadata@.contains_key(key@),
        file.metadata@[key@] == MetaValue::Uint32(value),
        only_key_differs(before, file, key@, other),
{
    let e: EntryModel = with.model().metadata.last();
    one_more_entry(b, e, with, bytes_before, before, bytes, file, other);
}

/// A 32-bit float that was added is parsed back under its key, and nothing else is changed.
pub proof fn added_f32_is_parsed_back(
    b: GgufBuilder,
    key: &str,
    value: u32,
    with: GgufBuilder,
    bytes_before: Vec<u8>,
    before: GgufFile,
    bytes: Vec<u8>,
    file: GgufFile,
    other: Seq<char>,
)
    requires
        call_ensures(GgufBuilder::add_f32, (b, key, value), with),
        can_be_parsed(b.model()),
        call_ensures(GgufBuilder::build, (b,), bytes_before),
        call_ensures(GgufFile::from_bytes, (bytes_before,), Ok(before)),
        call_ensures(GgufBuilder::build, (with,), bytes),
        call_ensures(GgufFile::from_bytes, (bytes,), Ok(file)),
    ensures
        file.metadata@.contains_key(key@),
        file.metadata@[key@] == MetaValue::Float32(value),
        only_key_differs(before, file, key@, other),
{
    let e: EntryModel = with.model().metadata.last();
    one_more_entry(b, e, with, bytes_before, before, bytes, file, other);
}

/// A flag that was added is parsed back under its key, and nothing else is changed.
pub proof fn added_bool_is_parsed_back(
    b: GgufBuilder,
    key: &str,
    value: bool,
    with: GgufBuilder,
    bytes_before: Vec<u8>,
    before: GgufFile,
    bytes: Vec<u8>,
    file: GgufFile,
    other: Seq<char>,
)
    requires
        call_ensures(GgufBuilder::add_bool, (b, key, value), with),
        can_be_parsed(b.model()),
        call_ensures(GgufBuilder::build, (b,), bytes_before),
        call_ensures(GgufFile::from_bytes, (bytes_before,), Ok(before)),
        call_ensures(GgufBuilder::build, (with,), bytes),
        call_ensures(GgufFile::from_bytes, (bytes,), Ok(file)),
    ensures
        file.metadata@.contains_key(key@),
        file.metadata@[key@] == MetaValue::Bool(value),
        only_key_differs(before, file, key@, other),
{
    let e: EntryModel = with.model().metadata.last();
    one_more_entry(b, e, with, bytes_before, before, bytes, file, other);
}

/// A string that was added is parsed back under its key, and nothing else is changed.
pub proof fn added_string_is_parsed_back(
    b: GgufBuilder,
    key: &str,
    value: &str,
    with: GgufBuilder,
    bytes_before: Vec<u8>,
    before: GgufFile,
    bytes: Vec<u8>,
    file: GgufFile,
    other: Seq<char>,
)
    requires
        call_ensures(GgufBuilder::add_string, (b, key, value), with),
        can_be_parsed(b.model()),
        call_ensures(GgufBuilder::build, (b,), bytes_before),
        call_ensures(GgufFile::from_bytes, (bytes_before,), Ok(before)),
        call_ensures(GgufBuilder::build, (with,), bytes),
        call_ensures(GgufFile::from_bytes, (bytes,), Ok(file)),
    ensures
        file.metadata@.contains_key(key@),
        file.metadata@[key@] == MetaValue::Text(value@),
        only_key_differs(before, file, key@, other),
{
    let e: EntryModel = with.model().metadata.last();
    one_more_entry(b, e, with, bytes_before, before, bytes, file, other);
}

/// An array of floats that was added is parsed back under its key, element by element, and nothing
/// else is changed.
pub proof fn added_f32_array_is_parsed_back(
    b: GgufBuilder,
    key: &str,
    values: &[u32],
    with: GgufBuilder,
    bytes_before: Vec<u8>,
    before: GgufFile,
    bytes: Vec<u8>,
    file: GgufFile,
    other: Seq<char>,
    i: int,
)
    requires
        call_ensures(GgufBuilder::add_f32_array, (b, key, values), with),
        can_be_parsed(b.model()),
        call_ensures(GgufBuilder::build, (b,), bytes_before),
        call_ensures(GgufFile::from_bytes, (bytes_before,), Ok(before)),
        call_ensures(GgufBuilder::build, (with,), bytes),
        call_ensures(GgufFile::from_bytes, (bytes,), Ok(file)),
    ensures
        file.metadata@.contains_key(key@),
        file.metadata@[key@] matches MetaValue::Array(items) && items.len() == values@.len() && (0
            <= i < items.len() ==> items[i] == MetaValue::Float32(values@[i])),
        only_key_differs(before, file, key@, other),
{
    let e: EntryModel = with.model().metadata.last();
    one_more_entry(b, e, with, bytes_before, before, bytes, file, other);
}

/// An array of strings that was added is parsed back under its key, element by element, and nothing
/// else is changed.
pub proof fn added_string_array_is_parsed_back(
    b: GgufBuilder,
    key: &str,
    values: &[&str],
    with: GgufBuilder,
    bytes_before: Vec<u8>,
    before: GgufFile,
    bytes: Vec<u8>,
    file: GgufFile,
    other: Seq<char>,
    i: int,
)
    requires
        call_ensures(GgufBuilder::add_string_array, (b, key, values), with),
        can_be_parsed(b.model()),
        call_ensures(GgufBuilder::build, (b,), bytes_before),
        call_ensures(GgufFile::from_bytes, (bytes_before,), Ok(before)),
        call_ensures(GgufBuilder::build, (with,), bytes),
        call_ensures(GgufFile::from_bytes, (bytes,), Ok(file)),
    ensures
        file.metadata@.contains_key(key@),
        file.metadata@[key@] matches MetaValue::Array(items) && items.len() == values@.len() && (0
            <= i < items.len() ==> items[i] == MetaValue::Text(values@[i]@)),
        only_key_differs(before, file, key@, other),
{
    let e: EntryModel = with.model().metadata.last();
    one_more_entry(b, e, with, bytes_before, before, bytes, file, other);
}

/// A tensor that was added is parsed back behind those that were there before, with its name, shape
/// and type. Where no other alignment is asked for, its data start at a multiple of 32 in the data
/// section, and are those that were given.
pub proof fn added_tensor_is_parsed_back(
    b: GgufBuilder,
    name: &str,
    shape: &[u64],
    dtype: GgufType,
    data: Vec<u8>,
    with: GgufBuilder,
    bytes: Vec<u8>,
    file: GgufFile,
)
    requires
        call_ensures(GgufBuilder::add_tensor, (b, name, shape, dtype, data), with),
        can_be_parsed(with.model()),
        call_ensures(GgufBuilder::build, (with,), bytes),
        call_ensures(GgufFile::from_bytes, (bytes,), Ok(file)),
        b.model().alignment == 32,
        !file.metadata@.contains_key("general.alignment"@),
    ensures
        ({
            let n = b.model().tensors.len() as int;
            let t = file.tensors@[n];
            let start = file.data_offset + t.offset_in_data;
            &&& file.tensors@.len() == n + 1
            &&& t.name@ == name@
            &&& t.ndim == shape@.len()
            &&& t.shape@ == shape@
            &&& t.gguf_type == dtype
            &&& file.data_offset as int % 32 == 0
            &&& t.offset_in_data as int % 32 == 0
            &&& start + data@.len() <= file.contents().len()
            &&& file.contents().subrange(start as int, start + data@.len()) == data@
        }),
{
    tensor_of_builder(with, bytes, file, b.model().tensors.len() as int);
}

proof fn tensor_of_builder(b: GgufBuilder, bytes: Vec<u8>, file: GgufFile, i: int)
    requires
        can_be_parsed(b.model()),
        call_ensures(GgufBuilder::build, (b,), bytes),
        call_ensures(GgufFile::from_bytes, (bytes,), Ok(file)),
        b.model().alignment == 32,
        !file.metadata@.contains_key("general.alignment"@),
        0 <= i < b.model().tensors.len(),
    ensures
        ({
            let m = b.model().tensors[i];
            let t = file.tensors@[i];
            let start = file.data_offset + t.offset_in_data;
            &&& file.tensors@.len() == b.model().tensors.len()
            &&& t.name@ == m.name
            &&& t.ndim == m.shape.len()
            &&& t.shape@ == m.shape
            &&& t.gguf_type == m.gguf_type
            &&& file.data_offset as int % 32 == 0
            &&& t.offset_in_data as int % 32 == 0
            &&& start + m.data.len() <= file.contents().len()
            &&& file.contents().subrange(start as int, start + m.data.len()) == m.data
        }),
{
    let m: BuilderModel = b.model();
    header_is_read(m);
    let r: Result<GgufFile, GgufError> = Ok(file);
    built_file_parses_back(m, r);
    assert(tensor_models(file.tensors@).len() == file.tensors@.len());
    assert(tensor_models(file.tensors@)[i] == file.tensors@[i].model());
    let at: int = data_start(m.tensors, 32, i);
    section_holds(m.tensors, 32, i);
    assert(file.tensors@[i].model() == tensor_read(m.tensors[i], at));
    let front: Seq<u8> = section(m.tensors.take(i), 32);
    aligned_is_least_multiple(front.len() as int, 32);
    aligned_is_least_multiple(header_bytes(m).len() as int, 32);
    assert(built(m).len() <= usize::MAX);
}

/// A tensor of zeros that was added is parsed back as one: with as many bytes as its elements take,
/// all of them zero.
pub proof fn added_zeros_are_parsed_back(
    b: GgufBuilder,
    name: &str,
    shape: &[u64],
    dtype: GgufType,
    with: GgufBuilder,
    bytes: Vec<u8>,
    file: GgufFile,
    size: usize,
    j: int,
)
    requires
        call_ensures(GgufBuilder::add_tensor_zeros, (b, name, shape, dtype), with),
        can_be_parsed(with.model()),
        call_ensures(GgufBuilder::build, (with,), bytes),
        call_ensures(GgufFile::from_bytes, (bytes,), Ok(file)),
        b.model().alignment == 32,
        !file.metadata@.contains_key("general.alignment"@),
        shape@.len() == 2,
        shape@[0] * shape@[1] <= usize::MAX,
        call_ensures(
            GgufType::tensor_byte_size,
            (&dtype, (shape@[0] * shape@[1]) as usize),
            size,
        ),
        0 <= j < size,
    ensures
        ({
            let n = b.model().tensors.len() as int;
            let t = file.tensors@[n];
            let start = file.data_offset + t.offset_in_data;
            &&& file.tensors@.len() == n + 1
            &&& t.name@ == name@
            &&& t.shape@ == shape@
            &&& t.gguf_type == dtype
            &&& start + size <= file.contents().len()
            &&& file.contents()[start + j] == 0
        }),
{
    let n: int = b.model().tensors.len() as int;
    tensor_of_builder(with, bytes, file, n);
    two_dimensions(shape@);
    let t: TensorInput = with.model().tensors[n];
    let start: int = file.data_offset + file.tensors@[n].offset_in_data;
    assert(file.contents().subrange(start, start + t.data.len())[j] == t.data[j]);
}

proof fn two_dimensions(shape: Seq<u64>)
    requires
        shape.len() == 2,
    ensures
        dims_product(shape) == shape[0] * shape[1],
{
    let first: Seq<u64> = shape.take(1);
    assert(first.drop_last() =~= Seq::empty());
    assert(dims_product(first.drop_last()) == 1);
    assert(dims_product(first) == shape[0]) by {
        assert(1 * (first.last() as nat) == shape[0]);
    }
    assert(shape.drop_last() =~= first);
    assert(shape.last() == shape[1]);
}

} // verus!
