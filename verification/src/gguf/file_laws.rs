//! What a model file says, byte by byte.

use super::architectures::ModelArchitecture;
use super::detect::detect_architecture;
use super::format::{
    body_of, dims_at, entries_at, entry_at, header_of, tensor_at, tensors_at, text_at, uint_at,
    value_at, values_at, GgufError, HeaderModel, Stop,
};
use super::metadata::{entries_map, GgufMetadataValueType, MetaValue};
use super::parser::{align_up, aligned_is_least_multiple, alignment_in, GgufFile};
use super::quantize::{type_id_round_trip, GgufType};
use super::tensor::{tensor_models, GgufTensorInfo, TensorModel};
use crate::float_laws::{bytes_spell, eight_bytes, four_bytes, two_bytes};
use vstd::prelude::*;
use vstd::utf8::*;

verus! {

/// Whether the bytes from `at` up to `end` are those of a text: how many bytes it has in UTF-8, in
/// eight bytes, and these bytes.
pub open spec fn says_text(data: Seq<u8>, at: int, end: int, text: Seq<char>) -> bool {
    &&& 0 <= at
    &&& end <= data.len()
    &&& end == at + 8 + encode_utf8(text).len()
    &&& eight_bytes(data, at) == encode_utf8(text).len()
    &&& data.subrange(at + 8, end) == encode_utf8(text)
}

/// The number by which a file tells of what type a value is.
pub open spec fn number_of_type(v: MetaValue) -> nat {
    match v {
        MetaValue::Uint8(_) => 0,
        MetaValue::Int8(_) => 1,
        MetaValue::Uint16(_) => 2,
        MetaValue::Int16(_) => 3,
        MetaValue::Uint32(_) => 4,
        MetaValue::Int32(_) => 5,
        MetaValue::Float32(_) => 6,
        MetaValue::Bool(_) => 7,
        MetaValue::Text(_) => 8,
        MetaValue::Array(_) => 9,
        MetaValue::Uint64(_) => 10,
        MetaValue::Int64(_) => 11,
        MetaValue::Float64(_) => 12,
    }
}

/// A number that may be negative, as its bits are read without a sign: below zero, counted from
/// the end of the range.
pub open spec fn without_sign(x: int, range: int) -> int {
    if x < 0 {
        x + range
    } else {
        x
    }
}

/// Whether the bytes from `at` up to `end` are those of a value.
pub open spec fn says(data: Seq<u8>, at: int, end: int, v: MetaValue) -> bool
    decreases v,
{
    &&& 0 <= at
    &&& end <= data.len()
    &&& match v {
        MetaValue::Uint8(x) => end == at + 1 && data[at] == x,
        MetaValue::Int8(x) => end == at + 1 && data[at] == without_sign(x as int, 0x100),
        MetaValue::Uint16(x) => end == at + 2 && two_bytes(data, at) == x,
        MetaValue::Int16(x) => end == at + 2 && two_bytes(data, at) == without_sign(
            x as int,
            0x1_0000,
        ),
        MetaValue::Uint32(x) => end == at + 4 && four_bytes(data, at) == x,
        MetaValue::Int32(x) => end == at + 4 && four_bytes(data, at) == without_sign(
            x as int,
            0x1_0000_0000,
        ),
        MetaValue::Float32(x) => end == at + 4 && four_bytes(data, at) == x,
        MetaValue::Bool(x) => end == at + 1 && (x <==> data[at] != 0),
        MetaValue::Text(x) => says_text(data, at, end, x),
        MetaValue::Array(items) => exists|marks: Seq<int>|
            {
                &&& #[trigger] marks_out(marks, at + 12, end, items.len())
                &&& at + 12 <= data.len()
                &&& four_bytes(data, at) <= 12
                &&& eight_bytes(data, at + 4) == items.len()
                &&& forall|i: int|
                    0 <= i < items.len() ==> number_of_type(#[trigger] items[i]) == four_bytes(
                        data,
                        at,
                    ) && says(data, marks[i], marks[i + 1], items[i])
            },
        MetaValue::Uint64(x) => end == at + 8 && eight_bytes(data, at) == x,
        MetaValue::Int64(x) => end == at + 8 && eight_bytes(data, at) == without_sign(
            x as int,
            0x1_0000_0000_0000_0000,
        ),
        MetaValue::Float64(x) => end == at + 8 && eight_bytes(data, at) == x,
    }
}

/// Whether `marks` are the borders of `n` things in a row, from `start` to `end`.
pub open spec fn marks_out(marks: Seq<int>, start: int, end: int, n: nat) -> bool {
    marks.len() == n + 1 && marks[0] == start && marks[n as int] == end
}

spec fn type_of(v: MetaValue) -> GgufMetadataValueType {
    match v {
        MetaValue::Uint8(_) => GgufMetadataValueType::Uint8,
        MetaValue::Int8(_) => GgufMetadataValueType::Int8,
        MetaValue::Uint16(_) => GgufMetadataValueType::Uint16,
        MetaValue::Int16(_) => GgufMetadataValueType::Int16,
        MetaValue::Uint32(_) => GgufMetadataValueType::Uint32,
        MetaValue::Int32(_) => GgufMetadataValueType::Int32,
        MetaValue::Float32(_) => GgufMetadataValueType::Float32,
        MetaValue::Bool(_) => GgufMetadataValueType::Bool,
        MetaValue::Text(_) => GgufMetadataValueType::String,
        MetaValue::Array(_) => GgufMetadataValueType::Array,
        MetaValue::Uint64(_) => GgufMetadataValueType::Uint64,
        MetaValue::Int64(_) => GgufMetadataValueType::Int64,
        MetaValue::Float64(_) => GgufMetadataValueType::Float64,
    }
}

proof fn type_has_number(v: MetaValue)
    ensures
        GgufMetadataValueType::with_id(number_of_type(v) as u32) == Some(type_of(v)),
{
}

pub(crate) proof fn numbers_are_read(data: Seq<u8>, at: int)
    requires
        0 <= at,
    ensures
        at + 1 <= data.len() ==> uint_at(data, at, 1) == Ok::<(nat, int), Stop>(
            (data[at] as nat, at + 1),
        ),
        at + 2 <= data.len() ==> uint_at(data, at, 2) == Ok::<(nat, int), Stop>(
            (two_bytes(data, at), at + 2),
        ),
        at + 4 <= data.len() ==> uint_at(data, at, 4) == Ok::<(nat, int), Stop>(
            (four_bytes(data, at), at + 4),
        ),
        at + 8 <= data.len() ==> uint_at(data, at, 8) == Ok::<(nat, int), Stop>(
            (eight_bytes(data, at), at + 8),
        ),
        two_bytes(data, at) < 0x1_0000,
        four_bytes(data, at) < 0x1_0000_0000,
        eight_bytes(data, at) < 0x1_0000_0000_0000_0000,
{
    bytes_spell(data, at);
}

pub(crate) proof fn text_is_read(data: Seq<u8>, at: int, end: int, text: Seq<char>)
    requires
        says_text(data, at, end, text),
        data.len() <= usize::MAX,
    ensures
        text_at(data, at) == Ok::<(Seq<char>, int), Stop>((text, end)),
        at + 8 <= end,
{
    numbers_are_read(data, at);
    encode_utf8_valid_utf8(text);
    encode_utf8_decode_utf8(text);
}

proof fn signs_are_read(a: u8, b: u16, c: u32, d: u64)
    ensures
        without_sign(a as i8 as int, 0x100) == a,
        without_sign(b as i16 as int, 0x1_0000) == b,
        without_sign(c as i32 as int, 0x1_0000_0000) == c,
        without_sign(d as i64 as int, 0x1_0000_0000_0000_0000) == d,
{
    assert(a < 0x80 ==> a as i8 == a) by (bit_vector);
    assert(a >= 0x80 ==> a as i8 == a - 0x100) by (bit_vector);
    assert(b < 0x8000 ==> b as i16 == b) by (bit_vector);
    assert(b >= 0x8000 ==> b as i16 == b - 0x1_0000) by (bit_vector);
    assert(c < 0x8000_0000 ==> c as i32 == c) by (bit_vector);
    assert(c >= 0x8000_0000 ==> c as i32 == c - 0x1_0000_0000) by (bit_vector);
    assert(d < 0x8000_0000_0000_0000 ==> d as i64 == d) by (bit_vector);
    assert(d >= 0x8000_0000_0000_0000 ==> d as i64 == d - 0x1_0000_0000_0000_0000) by (bit_vector);
}

proof fn value_is_read(data: Seq<u8>, at: int, end: int, v: MetaValue)
    requires
        says(data, at, end, v),
        data.len() <= usize::MAX,
    ensures
        value_at(data, at, type_of(v)) == Ok::<(MetaValue, int), Stop>((v, end)),
        at < end,
    decreases v,
{
    numbers_are_read(data, at);
    match v {
        MetaValue::Int8(x) => {
            signs_are_read(data[at], 0, 0, 0);
        },
        MetaValue::Int16(x) => {
            signs_are_read(0, two_bytes(data, at) as u16, 0, 0);
        },
        MetaValue::Int32(x) => {
            signs_are_read(0, 0, four_bytes(data, at) as u32, 0);
        },
        MetaValue::Int64(x) => {
            signs_are_read(0, 0, 0, eight_bytes(data, at) as u64);
        },
        MetaValue::Text(x) => {
            text_is_read(data, at, end, x);
        },
        MetaValue::Array(items) => {
            let marks: Seq<int> = choose|marks: Seq<int>|
                {
                    &&& #[trigger] marks_out(marks, at + 12, end, items.len())
                    &&& at + 12 <= data.len()
                    &&& four_bytes(data, at) <= 12
                    &&& eight_bytes(data, at + 4) == items.len()
                    &&& forall|i: int|
                        0 <= i < items.len() ==> number_of_type(#[trigger] items[i])
                            == four_bytes(data, at) && says(data, marks[i], marks[i + 1], items[i])
                };
            numbers_are_read(data, at + 4);
            let element: GgufMetadataValueType = GgufMetadataValueType::with_id(
                four_bytes(data, at) as u32,
            )->Some_0;
            assert forall|i: int| 0 <= i < items.len() implies value_at(
                data,
                marks[i],
                element,
            ) == Ok::<(MetaValue, int), Stop>((#[trigger] items[i], marks[i + 1])) && marks[i]
                < marks[i + 1] <= data.len() by {
                assert(number_of_type(items[i]) == four_bytes(data, at));
                assert(decreases_to!(v => items[i]));
                value_is_read(data, marks[i], marks[i + 1], items[i]);
                type_has_number(items[i]);
            }
            items_are_read(data, marks, element, items, 0);
            assert(items.skip(0) =~= items);
        },
        _ => {},
    }
}

proof fn items_are_read(
    data: Seq<u8>,
    marks: Seq<int>,
    element: GgufMetadataValueType,
    items: Seq<MetaValue>,
    i: int,
)
    requires
        0 <= i <= items.len(),
        marks.len() == items.len() + 1,
        forall|k: int|
            0 <= k < items.len() ==> value_at(data, marks[k], element) == Ok::<
                (MetaValue, int),
                Stop,
            >((#[trigger] items[k], marks[k + 1])) && marks[k] < marks[k + 1] <= data.len(),
    ensures
        values_at(data, marks[i], element, (items.len() - i) as nat) == Ok::<
            (Seq<MetaValue>, int),
            Stop,
        >((items.skip(i), marks[items.len() as int])),
        marks[i] + (items.len() - i) <= marks[items.len() as int],
    decreases items.len() - i,
{
    if i == items.len() {
        assert(items.skip(i) =~= Seq::<MetaValue>::empty());
    } else {
        assert(value_at(data, marks[i], element) == Ok::<(MetaValue, int), Stop>(
            (items[i], marks[i + 1]),
        ));
        items_are_read(data, marks, element, items, i + 1);
        assert(seq![items[i]] + items.skip(i + 1) =~= items.skip(i));
    }
}

/// Whether the bytes from `at` up to `end` are those of an entry: its key, in four bytes the number
/// of its value's type, and its value.
pub open spec fn says_entry(
    data: Seq<u8>,
    at: int,
    end: int,
    key: Seq<char>,
    v: MetaValue,
) -> bool {
    let middle = at + 8 + encode_utf8(key).len();
    &&& says_text(data, at, middle, key)
    &&& middle + 4 <= data.len()
    &&& four_bytes(data, middle) == number_of_type(v)
    &&& says(data, middle + 4, end, v)
}

/// The number by which a file tells of what type a tensor's elements are.
pub open spec fn number_of_elements_type(t: GgufType) -> nat {
    match t {
        GgufType::F32 => 0,
        GgufType::F16 => 1,
        GgufType::Q4_0 => 2,
        GgufType::Q4_1 => 3,
        GgufType::Q5_0 => 6,
        GgufType::Q5_1 => 7,
        GgufType::Q8_0 => 8,
        GgufType::Q8_1 => 9,
        GgufType::Q2_K => 10,
        GgufType::Q3_K => 11,
        GgufType::Q4_K => 12,
        GgufType::Q5_K => 13,
        GgufType::Q6_K => 14,
        GgufType::Q8_K => 15,
        GgufType::I8 => 24,
        GgufType::I16 => 25,
        GgufType::I32 => 26,
        GgufType::I64 => 27,
        GgufType::F64 => 28,
        GgufType::BF16 => 30,
    }
}

/// Whether the bytes from `at` up to `end` are those of a tensor's description: its name, in four
/// bytes how many dimensions it has, each of them in eight bytes, in four bytes the number of its
/// type, and in eight bytes where its data start in the data section.
pub open spec fn says_tensor(data: Seq<u8>, at: int, end: int, t: TensorModel) -> bool {
    let dims = at + 12 + encode_utf8(t.name).len();
    let behind = dims + 8 * t.shape.len();
    &&& says_text(data, at, dims - 4, t.name)
    &&& end == behind + 12
    &&& end <= data.len()
    &&& four_bytes(data, dims - 4) == t.shape.len()
    &&& t.ndim == t.shape.len()
    &&& forall|i: int|
        0 <= i < t.shape.len() ==> eight_bytes(data, dims + 8 * i) == #[trigger] t.shape[i]
    &&& four_bytes(data, behind) == number_of_elements_type(t.gguf_type)
    &&& eight_bytes(data, behind + 4) == t.offset_in_data
}

proof fn entry_is_read(data: Seq<u8>, at: int, end: int, key: Seq<char>, v: MetaValue)
    requires
        says_entry(data, at, end, key, v),
        data.len() <= usize::MAX,
    ensures
        entry_at(data, at) == Ok::<((Seq<char>, MetaValue), int), Stop>(((key, v), end)),
        at < end <= data.len(),
{
    let middle: int = at + 8 + encode_utf8(key).len();
    text_is_read(data, at, middle, key);
    numbers_are_read(data, middle);
    type_has_number(v);
    value_is_read(data, middle + 4, end, v);
}

proof fn dims_are_read(data: Seq<u8>, at: int, shape: Seq<u64>, i: int)
    requires
        0 <= at,
        0 <= i <= shape.len(),
        at + 8 * shape.len() <= data.len(),
        forall|k: int|
            0 <= k < shape.len() ==> eight_bytes(data, at + 8 * k) == #[trigger] shape[k],
    ensures
        dims_at(data, at + 8 * i, (shape.len() - i) as nat) == Ok::<(Seq<u64>, int), Stop>(
            (shape.skip(i), at + 8 * shape.len()),
        ),
    decreases shape.len() - i,
{
    if i == shape.len() {
        assert(shape.skip(i) =~= Seq::<u64>::empty());
    } else {
        numbers_are_read(data, at + 8 * i);
        assert(eight_bytes(data, at + 8 * i) == shape[i]);
        dims_are_read(data, at, shape, i + 1);
        assert(seq![shape[i]] + shape.skip(i + 1) =~= shape.skip(i));
    }
}

proof fn tensor_is_read(data: Seq<u8>, at: int, end: int, t: TensorModel)
    requires
        says_tensor(data, at, end, t),
        data.len() <= usize::MAX,
    ensures
        tensor_at(data, at) == Ok::<(TensorModel, int), Stop>((t, end)),
        at < end <= data.len(),
{
    let dims: int = at + 12 + encode_utf8(t.name).len();
    let behind: int = dims + 8 * t.shape.len();
    text_is_read(data, at, dims - 4, t.name);
    numbers_are_read(data, dims - 4);
    dims_are_read(data, dims, t.shape, 0);
    assert(t.shape.skip(0) =~= t.shape);
    numbers_are_read(data, behind);
    numbers_are_read(data, behind + 4);
    assert(number_of_elements_type(t.gguf_type) == t.gguf_type.id());
    type_id_round_trip(t.gguf_type);
}

/// Whether a file starts with entries in a row, whose borders are `marks`.
pub open spec fn says_entries(
    data: Seq<u8>,
    marks: Seq<int>,
    entries: Seq<(Seq<char>, MetaValue)>,
) -> bool {
    &&& marks.len() == entries.len() + 1
    &&& forall|i: int|
        0 <= i < entries.len() ==> says_entry(
            data,
            marks[i],
            marks[i + 1],
            (#[trigger] entries[i]).0,
            entries[i].1,
        )
}

/// Whether descriptions of tensors stand in a row, whose borders are `marks`.
pub open spec fn says_tensors(
    data: Seq<u8>,
    marks: Seq<int>,
    tensors: Seq<TensorModel>,
) -> bool {
    &&& marks.len() == tensors.len() + 1
    &&& forall|i: int|
        0 <= i < tensors.len() ==> says_tensor(data, marks[i], marks[i + 1], #[trigger] tensors[i])
}

pub(crate) proof fn entries_are_read(
    data: Seq<u8>,
    marks: Seq<int>,
    entries: Seq<(Seq<char>, MetaValue)>,
    more: nat,
    i: int,
)
    requires
        0 <= i <= entries.len(),
        says_entries(data, marks, entries),
        data.len() <= usize::MAX,
    ensures
        ({
            let n = entries.len() as int;
            let rest = entries_at(data, marks[n], more);
            let all = entries_at(data, marks[i], (n - i + more) as nat);
            &&& rest matches Ok((items, end)) ==> all == Ok::<
                (Seq<(Seq<char>, MetaValue)>, int),
                Stop,
            >((entries.skip(i) + items, end))
            &&& rest matches Err(stop) ==> all == Err::<
                (Seq<(Seq<char>, MetaValue)>, int),
                Stop,
            >(stop)
            &&& marks[i] + (n - i) <= marks[n]
        }),
{
    assert forall|k: int| 0 <= k < entries.len() implies entry_at(data, marks[k]) == Ok::<
        ((Seq<char>, MetaValue), int),
        Stop,
    >((#[trigger] entries[k], marks[k + 1])) && marks[k] < marks[k + 1] by {
        let e: (Seq<char>, MetaValue) = entries[k];
        assert(says_entry(data, marks[k], marks[k + 1], e.0, e.1));
        entry_is_read(data, marks[k], marks[k + 1], e.0, e.1);
    }
    entries_follow(data, marks, entries, more, i);
}

#[verifier::rlimit(40)]
proof fn entries_follow(
    data: Seq<u8>,
    marks: Seq<int>,
    entries: Seq<(Seq<char>, MetaValue)>,
    more: nat,
    i: int,
)
    requires
        0 <= i <= entries.len(),
        marks.len() == entries.len() + 1,
        forall|k: int|
            0 <= k < entries.len() ==> entry_at(data, marks[k]) == Ok::<
                ((Seq<char>, MetaValue), int),
                Stop,
            >((#[trigger] entries[k], marks[k + 1])) && marks[k] < marks[k + 1],
    ensures
        ({
            let n = entries.len() as int;
            let rest = entries_at(data, marks[n], more);
            let all = entries_at(data, marks[i], (n - i + more) as nat);
            &&& rest matches Ok((items, end)) ==> all == Ok::<
                (Seq<(Seq<char>, MetaValue)>, int),
                Stop,
            >((entries.skip(i) + items, end))
            &&& rest matches Err(stop) ==> all == Err::<
                (Seq<(Seq<char>, MetaValue)>, int),
                Stop,
            >(stop)
            &&& marks[i] + (n - i) <= marks[n]
        }),
    decreases entries.len() - i,
{
    let n: int = entries.len() as int;
    if i == n {
        if let Ok((items, end)) = entries_at(data, marks[n], more) {
            assert(entries.skip(i) + items =~= items);
        }
    } else {
        let e: (Seq<char>, MetaValue) = entries[i];
        entries_follow(data, marks, entries, more, i + 1);
        if let Ok((items, end)) = entries_at(data, marks[n], more) {
            assert(seq![e] + (entries.skip(i + 1) + items) =~= entries.skip(i) + items);
        }
    }
}

pub(crate) proof fn tensors_are_read(
    data: Seq<u8>,
    marks: Seq<int>,
    tensors: Seq<TensorModel>,
    more: nat,
    i: int,
)
    requires
        0 <= i <= tensors.len(),
        says_tensors(data, marks, tensors),
        data.len() <= usize::MAX,
    ensures
        ({
            let n = tensors.len() as int;
            let rest = tensors_at(data, marks[n], more);
            let all = tensors_at(data, marks[i], (n - i + more) as nat);
            &&& rest matches Ok((items, end)) ==> all == Ok::<(Seq<TensorModel>, int), Stop>(
                (tensors.skip(i) + items, end),
            )
            &&& rest matches Err(stop) ==> all == Err::<(Seq<TensorModel>, int), Stop>(stop)
            &&& marks[i] + (n - i) <= marks[n]
        }),
{
    assert forall|k: int| 0 <= k < tensors.len() implies tensor_at(data, marks[k]) == Ok::<
        (TensorModel, int),
        Stop,
    >((#[trigger] tensors[k], marks[k + 1])) && marks[k] < marks[k + 1] by {
        assert(says_tensor(data, marks[k], marks[k + 1], tensors[k]));
        tensor_is_read(data, marks[k], marks[k + 1], tensors[k]);
    }
    tensors_follow(data, marks, tensors, more, i);
}

#[verifier::rlimit(40)]
proof fn tensors_follow(
    data: Seq<u8>,
    marks: Seq<int>,
    tensors: Seq<TensorModel>,
    more: nat,
    i: int,
)
    requires
        0 <= i <= tensors.len(),
        marks.len() == tensors.len() + 1,
        forall|k: int|
            0 <= k < tensors.len() ==> tensor_at(data, marks[k]) == Ok::<(TensorModel, int), Stop>(
                (#[trigger] tensors[k], marks[k + 1]),
            ) && marks[k] < marks[k + 1],
    ensures
        ({
            let n = tensors.len() as int;
            let rest = tensors_at(data, marks[n], more);
            let all = tensors_at(data, marks[i], (n - i + more) as nat);
            &&& rest matches Ok((items, end)) ==> all == Ok::<(Seq<TensorModel>, int), Stop>(
                (tensors.skip(i) + items, end),
            )
            &&& rest matches Err(stop) ==> all == Err::<(Seq<TensorModel>, int), Stop>(stop)
            &&& marks[i] + (n - i) <= marks[n]
        }),
    decreases tensors.len() - i,
{
    let n: int = tensors.len() as int;
    if i == n {
        if let Ok((items, end)) = tensors_at(data, marks[n], more) {
            assert(tensors.skip(i) + items =~= items);
        }
    } else {
        let t: TensorModel = tensors[i];
        tensors_follow(data, marks, tensors, more, i + 1);
        if let Ok((items, end)) = tensors_at(data, marks[n], more) {
            assert(seq![t] + (tensors.skip(i + 1) + items) =~= tensors.skip(i) + items);
        }
    }
}

/// Whether a file starts as a model file does: with "GGUF", its version, and how many tensors and
/// how many entries it has.
pub open spec fn starts_file(
    data: Seq<u8>,
    version: nat,
    tensor_count: nat,
    entry_count: nat,
) -> bool {
    &&& data.len() >= 24
    &&& data[0] == 'G' as u8 && data[1] == 'G' as u8 && data[2] == 'U' as u8 && data[3] == 'F' as u8
    &&& four_bytes(data, 4) == version
    &&& eight_bytes(data, 8) == tensor_count
    &&& eight_bytes(data, 16) == entry_count
}

pub(crate) proof fn start_is_read(data: Seq<u8>, version: nat, tensor_count: nat, entry_count: nat)
    requires
        starts_file(data, version, tensor_count, entry_count),
        version == 2 || version == 3,
        tensor_count <= usize::MAX,
        entry_count <= usize::MAX,
    ensures
        header_of(data) == body_of(
            data,
            24,
            version as u32,
            tensor_count as usize,
            entry_count as usize,
        ),
{
    numbers_are_read(data, 0);
    numbers_are_read(data, 4);
    numbers_are_read(data, 8);
    numbers_are_read(data, 16);
    assert(four_bytes(data, 0) == 0x4655_4747);
}

/// Whether entry `i` is the last one under `key`.
pub open spec fn is_last_entry(
    entries: Seq<(Seq<char>, MetaValue)>,
    key: Seq<char>,
    i: int,
) -> bool {
    &&& 0 <= i < entries.len()
    &&& entries[i].0 == key
    &&& forall|j: int| i < j < entries.len() ==> (#[trigger] entries[j]).0 != key
}

/// Where the data section of a file starts: at the first multiple of the alignment behind the
/// header.
pub open spec fn is_next_multiple(header_end: int, alignment: int, start: int) -> bool {
    if alignment == 0 {
        start == header_end
    } else {
        &&& start % alignment == 0
        &&& header_end <= start < header_end + alignment
    }
}

/// A file that says what it should is parsed, and the parsed file has what it says: the version,
/// under each key the value of the last entry with the key, and the tensors in order. The data
/// section starts at the next multiple of the alignment, which is what `general.alignment` says,
/// or 32.
pub proof fn files_are_parsed_as_they_say(
    data: Vec<u8>,
    r: Result<GgufFile, GgufError>,
    version: nat,
    entries: Seq<(Seq<char>, MetaValue)>,
    entry_marks: Seq<int>,
    tensors: Seq<TensorModel>,
    tensor_marks: Seq<int>,
    key: Seq<char>,
    i: int,
    alignment: u32,
)
    requires
        call_ensures(GgufFile::from_bytes, (data,), r),
        data@.len() <= usize::MAX,
        starts_file(data@, version, tensors.len(), entries.len()),
        version == 2 || version == 3,
        says_entries(data@, entry_marks, entries),
        entry_marks[0] == 24,
        says_tensors(data@, tensor_marks, tensors),
        tensor_marks[0] == entry_marks[entries.len() as int],
        tensor_marks[tensors.len() as int] + u32::MAX <= usize::MAX,
        is_alignment(entries, alignment),
    ensures
        r matches Ok(file) && {
            &&& file.contents() == data@
            &&& file.version == version
            &&& is_last_entry(entries, key, i) ==> file.metadata@.contains_key(key)
                && file.metadata@[key] == entries[i].1
            &&& (forall|j: int| 0 <= j < entries.len() ==> (#[trigger] entries[j]).0 != key)
                ==> !file.metadata@.contains_key(key)
            &&& file.tensors@.len() == tensors.len()
            &&& 0 <= i < tensors.len() ==> {
                &&& file.tensors@[i].name@ == tensors[i].name
                &&& file.tensors@[i].ndim == tensors[i].ndim
                &&& file.tensors@[i].shape@ == tensors[i].shape
                &&& file.tensors@[i].gguf_type == tensors[i].gguf_type
                &&& file.tensors@[i].offset_in_data == tensors[i].offset_in_data
            }
            &&& is_next_multiple(
                tensor_marks[tensors.len() as int],
                alignment as int,
                file.data_offset as int,
            )
        },
{
    let bytes: Seq<u8> = data@;
    let end: int = tensor_marks[tensors.len() as int];
    entries_are_read(bytes, entry_marks, entries, 0, 0);
    tensors_are_read(bytes, tensor_marks, tensors, 0, 0);
    assert(entries.skip(0) + Seq::<(Seq<char>, MetaValue)>::empty() =~= entries);
    assert(tensors.skip(0) + Seq::<TensorModel>::empty() =~= tensors);
    marks_stay_inside(bytes, entry_marks, entries, tensor_marks, tensors);
    start_is_read(bytes, version, tensors.len(), entries.len());
    let header: HeaderModel = HeaderModel { version: version as u32, entries, tensors };
    assert(header_of(bytes) == Ok::<(HeaderModel, int), Stop>((header, end)));
    let map: Map<Seq<char>, MetaValue> = entries_map(entries);
    alignment_is_read(entries, alignment);
    if alignment > 0 {
        aligned_is_least_multiple(end, alignment as int);
    }
    let file: GgufFile = r->Ok_0;
    if is_last_entry(entries, key, i) {
        last_entry_is_kept(entries, key, i);
    }
    if forall|j: int| 0 <= j < entries.len() ==> (#[trigger] entries[j]).0 != key {
        missing_key_is_missing(entries, key);
    }
    assert(tensor_models(file.tensors@).len() == file.tensors@.len());
    if 0 <= i < tensors.len() {
        assert(tensor_models(file.tensors@)[i] == file.tensors@[i].model());
    }
}

/// Whether `alignment` is the one that entries ask for: the last `general.alignment`, if it is a
/// 32-bit number, and 32 otherwise.
pub open spec fn is_alignment(entries: Seq<(Seq<char>, MetaValue)>, alignment: u32) -> bool {
    let key = "general.alignment"@;
    &&& forall|i: int| #[trigger]
        is_last_entry(entries, key, i) ==> alignment == (match entries[i].1 {
            MetaValue::Uint32(a) => a,
            _ => 32,
        })
    &&& (forall|j: int| 0 <= j < entries.len() ==> (#[trigger] entries[j]).0 != key) ==> alignment
        == 32
}

proof fn last_entry_is_kept(entries: Seq<(Seq<char>, MetaValue)>, key: Seq<char>, i: int)
    requires
        is_last_entry(entries, key, i),
    ensures
        entries_map(entries).contains_key(key),
        entries_map(entries)[key] == entries[i].1,
    decreases entries.len(),
{
    if i < entries.len() - 1 {
        assert(entries[entries.len() - 1].0 != key);
        let shorter: Seq<(Seq<char>, MetaValue)> = entries.drop_last();
        assert forall|j: int| i < j < shorter.len() implies (#[trigger] shorter[j]).0 != key by {
            assert(entries[j].0 != key);
        }
        last_entry_is_kept(shorter, key, i);
    }
}

proof fn missing_key_is_missing(entries: Seq<(Seq<char>, MetaValue)>, key: Seq<char>)
    requires
        forall|j: int| 0 <= j < entries.len() ==> (#[trigger] entries[j]).0 != key,
    ensures
        !entries_map(entries).contains_key(key),
    decreases entries.len(),
{
    if entries.len() > 0 {
        assert(entries[entries.len() - 1].0 != key);
        let shorter: Seq<(Seq<char>, MetaValue)> = entries.drop_last();
        assert forall|j: int| 0 <= j < shorter.len() implies (#[trigger] shorter[j]).0 != key by {
            assert(entries[j].0 != key);
        }
        missing_key_is_missing(shorter, key);
    }
}

proof fn alignment_is_read(entries: Seq<(Seq<char>, MetaValue)>, alignment: u32)
    requires
        is_alignment(entries, alignment),
    ensures
        alignment_in(entries_map(entries)) == alignment,
{
    let key: Seq<char> = "general.alignment"@;
    if exists|j: int| 0 <= j < entries.len() && (#[trigger] entries[j]).0 == key {
        let j: int = choose|j: int| 0 <= j < entries.len() && (#[trigger] entries[j]).0 == key;
        let last: int = last_with_key(entries, key, j);
        last_entry_is_kept(entries, key, last);
    } else {
        missing_key_is_missing(entries, key);
    }
}

proof fn last_with_key(entries: Seq<(Seq<char>, MetaValue)>, key: Seq<char>, i: int) -> (r: int)
    requires
        0 <= i < entries.len(),
        entries[i].0 == key,
    ensures
        is_last_entry(entries, key, r),
    decreases entries.len() - i,
{
    if forall|j: int| i < j < entries.len() ==> (#[trigger] entries[j]).0 != key {
        i
    } else {
        let j: int = choose|j: int| i < j < entries.len() && (#[trigger] entries[j]).0 == key;
        last_with_key(entries, key, j)
    }
}

pub(crate) proof fn marks_stay_inside(
    data: Seq<u8>,
    entry_marks: Seq<int>,
    entries: Seq<(Seq<char>, MetaValue)>,
    tensor_marks: Seq<int>,
    tensors: Seq<TensorModel>,
)
    requires
        data.len() >= 24,
        data.len() <= usize::MAX,
        says_entries(data, entry_marks, entries),
        entry_marks[0] == 24,
        says_tensors(data, tensor_marks, tensors),
        tensor_marks[0] == entry_marks[entries.len() as int],
    ensures
        entries.len() <= data.len(),
        tensors.len() <= data.len(),
        24 <= tensor_marks[tensors.len() as int] <= data.len(),
{
    entries_are_read(data, entry_marks, entries, 0, 0);
    tensors_are_read(data, tensor_marks, tensors, 0, 0);
    let n: int = entries.len() as int;
    let m: int = tensors.len() as int;
    if n > 0 {
        let e: (Seq<char>, MetaValue) = entries[n - 1];
        assert(says_entry(data, entry_marks[n - 1], entry_marks[n - 1 + 1], e.0, e.1));
        entry_is_read(data, entry_marks[n - 1], entry_marks[n], e.0, e.1);
    }
    if m > 0 {
        assert(says_tensor(data, tensor_marks[m - 1], tensor_marks[m - 1 + 1], tensors[m - 1]));
        tensor_is_read(data, tensor_marks[m - 1], tensor_marks[m], tensors[m - 1]);
    }
}

/// The parsed file's architecture is the one that is detected from its metadata and tensors.
pub proof fn parsed_architecture_is_detected(
    data: Vec<u8>,
    file: GgufFile,
    tensors: &[GgufTensorInfo],
    architecture: ModelArchitecture,
)
    requires
        call_ensures(GgufFile::from_bytes, (data,), Ok(file)),
        tensors@ == file.tensors@,
        call_ensures(detect_architecture, (&file.metadata, tensors), architecture),
    ensures
        file.architecture == architecture,
{
}

/// A file that does not start with "GGUF" is refused with the number that its first four bytes
/// spell, and one of another version than 2 or 3 with its version.
pub proof fn other_files_are_refused(data: Vec<u8>, r: Result<GgufFile, GgufError>)
    requires
        call_ensures(GgufFile::from_bytes, (data,), r),
    ensures
        ({
            let bytes = data@;
            let magic = bytes[0] == 'G' as u8 && bytes[1] == 'G' as u8 && bytes[2] == 'U' as u8
                && bytes[3] == 'F' as u8;
            let version = four_bytes(bytes, 4);
            &&& bytes.len() >= 4 && !magic ==> r == Err::<GgufFile, GgufError>(
                GgufError::BadMagic(four_bytes(bytes, 0) as u32),
            )
            &&& bytes.len() >= 8 && magic && version != 2 && version != 3 ==> r == Err::<
                GgufFile,
                GgufError,
            >(GgufError::UnsupportedVersion(version as u32))
        }),
{
    let bytes: Seq<u8> = data@;
    numbers_are_read(bytes, 0);
    numbers_are_read(bytes, 4);
    if bytes.len() >= 4 && four_bytes(bytes, 0) == 0x4655_4747 {
        assert(two_bytes(bytes, 0) == 0x4747);
        assert(two_bytes(bytes, 2) == 0x4655);
    }
}

/// A file whose entries are read up to one with a type that there is not is refused for that type.
pub proof fn unknown_value_types_are_refused(
    data: Vec<u8>,
    r: Result<GgufFile, GgufError>,
    version: nat,
    tensor_count: nat,
    entry_count: nat,
    entries: Seq<(Seq<char>, MetaValue)>,
    marks: Seq<int>,
    key: Seq<char>,
    middle: int,
)
    requires
        call_ensures(GgufFile::from_bytes, (data,), r),
        data@.len() <= usize::MAX,
        starts_file(data@, version, tensor_count, entry_count),
        version == 2 || version == 3,
        tensor_count <= usize::MAX,
        entries.len() < entry_count <= usize::MAX,
        says_entries(data@, marks, entries),
        marks[0] == 24,
        says_text(data@, marks[entries.len() as int], middle, key),
        middle + 4 <= data@.len(),
        four_bytes(data@, middle) > 12,
    ensures
        r == Err::<GgufFile, GgufError>(
            GgufError::UnknownValueType(four_bytes(data@, middle) as u32),
        ),
{
    let n: int = entries.len() as int;
    let more: nat = (entry_count - n) as nat;
    text_is_read(data@, marks[n], middle, key);
    numbers_are_read(data@, middle);
    entries_are_read(data@, marks, entries, more, 0);
    start_is_read(data@, version, tensor_count, entry_count);
}

/// A file whose tensors are read up to one with a type that there is not is refused for that type.
pub proof fn unknown_tensor_types_are_refused(
    data: Vec<u8>,
    r: Result<GgufFile, GgufError>,
    version: nat,
    tensor_count: nat,
    entries: Seq<(Seq<char>, MetaValue)>,
    entry_marks: Seq<int>,
    tensors: Seq<TensorModel>,
    marks: Seq<int>,
    name: Seq<char>,
    shape: Seq<u64>,
    middle: int,
)
    requires
        call_ensures(GgufFile::from_bytes, (data,), r),
        data@.len() <= usize::MAX,
        starts_file(data@, version, tensor_count, entries.len()),
        version == 2 || version == 3,
        tensors.len() < tensor_count <= usize::MAX,
        entries.len() <= usize::MAX,
        says_entries(data@, entry_marks, entries),
        entry_marks[0] == 24,
        says_tensors(data@, marks, tensors),
        marks[0] == entry_marks[entries.len() as int],
        says_text(data@, marks[tensors.len() as int], middle, name),
        middle + 4 + 8 * shape.len() + 4 <= data@.len(),
        four_bytes(data@, middle) == shape.len(),
        forall|k: int|
            0 <= k < shape.len() ==> eight_bytes(data@, middle + 4 + 8 * k) == #[trigger] shape[k],
        ({
            let t = four_bytes(data@, middle + 4 + 8 * shape.len());
            t == 4 || t == 5 || 15 < t < 24 || t == 29 || t > 30
        }),
    ensures
        r == Err::<GgufFile, GgufError>(
            GgufError::UnknownTensorType(
                four_bytes(data@, middle + 4 + 8 * shape.len()) as u32,
            ),
        ),
{
    let n: int = tensors.len() as int;
    let more: nat = (tensor_count - n) as nat;
    text_is_read(data@, marks[n], middle, name);
    numbers_are_read(data@, middle);
    dims_are_read(data@, middle + 4, shape, 0);
    assert(shape.skip(0) =~= shape);
    numbers_are_read(data@, middle + 4 + 8 * shape.len());
    entries_are_read(data@, entry_marks, entries, 0, 0);
    assert(entries.skip(0) + Seq::<(Seq<char>, MetaValue)>::empty() =~= entries);
    tensors_are_read(data@, marks, tensors, more, 0);
    start_is_read(data@, version, tensor_count, entries.len());
}

/// Aligning goes up to the next multiple, and nowhere without an alignment.
pub proof fn aligning_goes_to_the_next_multiple(value: usize, alignment: usize, r: usize)
    requires
        call_ensures(align_up, (value, alignment), r),
    ensures
        is_next_multiple(value as int, alignment as int, r as int),
{
    if alignment > 0 {
        aligned_is_least_multiple(value as int, alignment as int);
    }
}

/// A parsed file keeps the bytes that it was parsed from.
pub proof fn files_keep_their_bytes(
    data: Vec<u8>,
    r: Result<GgufFile, GgufError>,
    file: GgufFile,
    bytes: &[u8],
)
    requires
        call_ensures(GgufFile::from_bytes, (data,), r),
        r == Ok::<GgufFile, GgufError>(file),
        call_ensures(GgufFile::mmap_bytes, (&file,), bytes),
    ensures
        bytes@ == data@,
{
}

} // verus!
