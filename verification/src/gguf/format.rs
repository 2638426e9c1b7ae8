//! What the bytes of a GGUF file say.
//!
//! Each `.._at` function reads one item that starts at a position, and gives the item with the
//! position behind it, or the error that stops the reading with the position where it stops.

use super::bytes::{byte_ranges, le_bytes, le_bytes_of_le_value, le_round_trip, le_value};
use super::metadata::{GgufMetadataValueType, MetaValue};
use super::quantize::GgufType;
use super::tensor::TensorModel;
use vstd::prelude::*;
use vstd::utf8::*;

verus! {

/// GGUF magic bytes: "GGUF" as little-endian u32.
pub const GGUF_MAGIC: u32 = 0x4655_4747;

/// Default alignment for GGUF data section.
pub const DEFAULT_ALIGNMENT: usize = 32;

/// Errors during GGUF parsing.
#[derive(Debug, Clone, Copy, PartialEq, Eq, Structural)]
pub enum GgufError {
    /// The file does not start with the magic number, but with this one.
    BadMagic(u32),
    /// The version is neither 2 nor 3.
    UnsupportedVersion(u32),
    /// No metadata value type has this number.
    UnknownValueType(u32),
    /// No tensor type has this number.
    UnknownTensorType(u32),
    /// The data ends inside the item at this offset.
    UnexpectedEof(usize),
    /// The string whose bytes start at this offset is not UTF-8.
    InvalidUtf8(usize),
}

/// Why a reading stops, and the position behind what was read until then.
pub struct Stop {
    pub error: GgufError,
    pub at: int,
}

/// A reading that stops at a position.
pub open spec fn stops<T>(error: GgufError, at: int) -> Result<(T, int), Stop> {
    Err(Stop { error, at })
}

/// Applies `f` to the item of a successful reading.
pub open spec fn reads<T, U>(r: Result<(T, int), Stop>, f: spec_fn(T) -> U) -> Result<
    (U, int),
    Stop,
> {
    match r {
        Ok((item, end)) => Ok((f(item), end)),
        Err(e) => Err(e),
    }
}

/// The little-endian number of `n` bytes at `pos`.
pub open spec fn uint_at(data: Seq<u8>, pos: int, n: int) -> Result<(nat, int), Stop> {
    if pos + n <= data.len() {
        Ok((le_value(data.subrange(pos, pos + n)), pos + n))
    } else {
        stops(GgufError::UnexpectedEof(pos as usize), pos)
    }
}

/// The string at `pos`: its length in bytes as a 64-bit number, then its UTF-8 bytes.
pub open spec fn text_at(data: Seq<u8>, pos: int) -> Result<(Seq<char>, int), Stop> {
    match uint_at(data, pos, 8) {
        Err(e) => Err(e),
        Ok((n, start)) => {
            let len = n as u64 as usize as int;
            if start + len > data.len() {
                stops(GgufError::UnexpectedEof(start as usize), start)
            } else if !valid_utf8(data.subrange(start, start + len)) {
                stops(GgufError::InvalidUtf8(start as usize), start)
            } else {
                Ok((decode_utf8(data.subrange(start, start + len)), start + len))
            }
        },
    }
}

/// The metadata value of type `t` at `pos`. An array is the number of its element type, its
/// length as a 64-bit number, and its elements.
pub open spec fn value_at(data: Seq<u8>, pos: int, t: GgufMetadataValueType) -> Result<
    (MetaValue, int),
    Stop,
>
    decreases data.len() - pos, 0int,
{
    match t {
        GgufMetadataValueType::Uint8 => reads(
            uint_at(data, pos, 1),
            |v: nat| MetaValue::Uint8(v as u8),
        ),
        GgufMetadataValueType::Int8 => reads(
            uint_at(data, pos, 1),
            |v: nat| MetaValue::Int8(v as u8 as i8),
        ),
        GgufMetadataValueType::Uint16 => reads(
            uint_at(data, pos, 2),
            |v: nat| MetaValue::Uint16(v as u16),
        ),
        GgufMetadataValueType::Int16 => reads(
            uint_at(data, pos, 2),
            |v: nat| MetaValue::Int16(v as u16 as i16),
        ),
        GgufMetadataValueType::Uint32 => reads(
            uint_at(data, pos, 4),
            |v: nat| MetaValue::Uint32(v as u32),
        ),
        GgufMetadataValueType::Int32 => reads(
            uint_at(data, pos, 4),
            |v: nat| MetaValue::Int32(v as u32 as i32),
        ),
        GgufMetadataValueType::Float32 => reads(
            uint_at(data, pos, 4),
            |v: nat| MetaValue::Float32(v as u32),
        ),
        GgufMetadataValueType::Bool => reads(
            uint_at(data, pos, 1),
            |v: nat| MetaValue::Bool(v != 0),
        ),
        GgufMetadataValueType::String => reads(
            text_at(data, pos),
            |s: Seq<char>| MetaValue::Text(s),
        ),
        GgufMetadataValueType::Array => match uint_at(data, pos, 4) {
            Err(e) => Err(e),
            Ok((raw, after_type)) => match GgufMetadataValueType::with_id(raw as u32) {
                None => stops(GgufError::UnknownValueType(raw as u32), after_type),
                Some(element) => match uint_at(data, after_type, 8) {
                    Err(e) => Err(e),
                    Ok((n, start)) => reads(
                        values_at(data, start, element, (n as u64 as usize) as nat),
                        |items: Seq<MetaValue>| MetaValue::Array(items),
                    ),
                },
            },
        },
        GgufMetadataValueType::Uint64 => reads(
            uint_at(data, pos, 8),
            |v: nat| MetaValue::Uint64(v as u64),
        ),
        GgufMetadataValueType::Int64 => reads(
            uint_at(data, pos, 8),
            |v: nat| MetaValue::Int64(v as u64 as i64),
        ),
        GgufMetadataValueType::Float64 => reads(
            uint_at(data, pos, 8),
            |v: nat| MetaValue::Float64(v as u64),
        ),
    }
}

/// `n` metadata values of type `t`, one after another.
pub open spec fn values_at(data: Seq<u8>, pos: int, t: GgufMetadataValueType, n: nat) -> Result<
    (Seq<MetaValue>, int),
    Stop,
>
    decreases data.len() - pos, 1int,
{
    if n == 0 {
        Ok((Seq::empty(), pos))
    } else {
        match value_at(data, pos, t) {
            Err(e) => Err(e),
            Ok((first, next)) => if pos < next <= data.len() {
                reads(
                    values_at(data, next, t, (n - 1) as nat),
                    |rest: Seq<MetaValue>| seq![first] + rest,
                )
            } else {
                stops(GgufError::UnexpectedEof(next as usize), next)
            },
        }
    }
}

/// The metadata entry at `pos`: key, number of the value type, value.
pub open spec fn entry_at(data: Seq<u8>, pos: int) -> Result<
    ((Seq<char>, MetaValue), int),
    Stop,
> {
    match text_at(data, pos) {
        Err(e) => Err(e),
        Ok((key, after_key)) => match uint_at(data, after_key, 4) {
            Err(e) => Err(e),
            Ok((raw, after_type)) => match GgufMetadataValueType::with_id(raw as u32) {
                None => stops(GgufError::UnknownValueType(raw as u32), after_type),
                Some(t) => reads(value_at(data, after_type, t), |v: MetaValue| (key, v)),
            },
        },
    }
}

/// `n` metadata entries, one after another.
pub open spec fn entries_at(data: Seq<u8>, pos: int, n: nat) -> Result<
    (Seq<(Seq<char>, MetaValue)>, int),
    Stop,
>
    decreases n,
{
    if n == 0 {
        Ok((Seq::empty(), pos))
    } else {
        match entry_at(data, pos) {
            Err(e) => Err(e),
            Ok((first, next)) => reads(
                entries_at(data, next, (n - 1) as nat),
                |rest: Seq<(Seq<char>, MetaValue)>| seq![first] + rest,
            ),
        }
    }
}

/// `n` dimensions, each a 64-bit number.
pub open spec fn dims_at(data: Seq<u8>, pos: int, n: nat) -> Result<(Seq<u64>, int), Stop>
    decreases n,
{
    if n == 0 {
        Ok((Seq::empty(), pos))
    } else {
        match uint_at(data, pos, 8) {
            Err(e) => Err(e),
            Ok((first, next)) => reads(
                dims_at(data, next, (n - 1) as nat),
                |rest: Seq<u64>| seq![first as u64] + rest,
            ),
        }
    }
}

/// The tensor description at `pos`: name, number of dimensions, dimensions, number of the type,
/// offset in the data section.
pub open spec fn tensor_at(data: Seq<u8>, pos: int) -> Result<(TensorModel, int), Stop> {
    match text_at(data, pos) {
        Err(e) => Err(e),
        Ok((name, after_name)) => match uint_at(data, after_name, 4) {
            Err(e) => Err(e),
            Ok((ndim, after_ndim)) => match dims_at(data, after_ndim, ndim) {
                Err(e) => Err(e),
                Ok((shape, after_shape)) => match uint_at(data, after_shape, 4) {
                    Err(e) => Err(e),
                    Ok((raw, after_type)) => match GgufType::with_id(raw as u32) {
                        None => stops(GgufError::UnknownTensorType(raw as u32), after_type),
                        Some(t) => reads(
                            uint_at(data, after_type, 8),
                            |offset: nat|
                                TensorModel {
                                    name,
                                    ndim: ndim as u32,
                                    shape,
                                    gguf_type: t,
                                    offset_in_data: offset as u64,
                                },
                        ),
                    },
                },
            },
        },
    }
}

/// `n` tensor descriptions, one after another.
pub open spec fn tensors_at(data: Seq<u8>, pos: int, n: nat) -> Result<
    (Seq<TensorModel>, int),
    Stop,
>
    decreases n,
{
    if n == 0 {
        Ok((Seq::empty(), pos))
    } else {
        match tensor_at(data, pos) {
            Err(e) => Err(e),
            Ok((first, next)) => reads(
                tensors_at(data, next, (n - 1) as nat),
                |rest: Seq<TensorModel>| seq![first] + rest,
            ),
        }
    }
}

/// What stands in front of the data section.
#[verifier::ext_equal]
pub struct HeaderModel {
    pub version: u32,
    pub entries: Seq<(Seq<char>, MetaValue)>,
    pub tensors: Seq<TensorModel>,
}

/// The header of a file, with the position behind it.
pub open spec fn header_of(data: Seq<u8>) -> Result<(HeaderModel, int), Stop> {
    match uint_at(data, 0, 4) {
        Err(e) => Err(e),
        Ok((magic, at_version)) => if magic != GGUF_MAGIC {
            stops(GgufError::BadMagic(magic as u32), at_version)
        } else {
            match uint_at(data, at_version, 4) {
                Err(e) => Err(e),
                Ok((version, at_counts)) => if version != 2 && version != 3 {
                    stops(GgufError::UnsupportedVersion(version as u32), at_counts)
                } else {
                    match uint_at(data, at_counts, 8) {
                        Err(e) => Err(e),
                        Ok((tensor_count, at_entry_count)) => match uint_at(
                            data,
                            at_entry_count,
                            8,
                        ) {
                            Err(e) => Err(e),
                            Ok((entry_count, start)) => body_of(
                                data,
                                start,
                                version as u32,
                                tensor_count as u64 as usize,
                                entry_count as u64 as usize,
                            ),
                        },
                    }
                },
            }
        },
    }
}

/// The metadata and the tensor descriptions, behind the counts.
pub open spec fn body_of(
    data: Seq<u8>,
    start: int,
    version: u32,
    tensor_count: usize,
    entry_count: usize,
) -> Result<(HeaderModel, int), Stop> {
    match entries_at(data, start, entry_count as nat) {
        Err(e) => Err(e),
        Ok((entries, at_tensors)) => reads(
            tensors_at(data, at_tensors, tensor_count as nat),
            |tensors: Seq<TensorModel>| HeaderModel { version, entries, tensors },
        ),
    }
}

/// A file has the magic number exactly when its first four bytes are "GGUF". Any other one is
/// refused, with the number that it has instead.
pub proof fn files_start_with_gguf(data: Seq<u8>)
    requires
        data.len() >= 4,
    ensures
        ({
            let gguf = seq!['G' as u8, 'G' as u8, 'U' as u8, 'F' as u8];
            let magic = le_value(data.take(4));
            &&& data.take(4) == gguf <==> magic == GGUF_MAGIC
            &&& data.take(4) != gguf ==> header_of(data) == stops::<HeaderModel>(
                GgufError::BadMagic(magic as u32),
                4,
            )
        }),
{
    let gguf: Seq<u8> = seq!['G' as u8, 'G' as u8, 'U' as u8, 'F' as u8];
    let start: Seq<u8> = data.take(4);
    assert(data.subrange(0, 4) =~= start);
    reveal_with_fuel(le_bytes, 5);
    assert(le_bytes(GGUF_MAGIC as nat, 4) =~= gguf);
    byte_ranges();
    le_round_trip(GGUF_MAGIC as nat, 4);
    le_bytes_of_le_value(start);
}

/// A successful reading of a value moves forward, and not beyond the end.
pub proof fn value_at_advances(data: Seq<u8>, pos: int, t: GgufMetadataValueType)
    ensures
        value_at(data, pos, t) matches Ok((v, end)) ==> pos < end <= data.len(),
    decreases data.len() - pos, 0int,
{
    if t == GgufMetadataValueType::Array {
        if let Ok((raw, after_type)) = uint_at(data, pos, 4) {
            if let Some(element) = GgufMetadataValueType::with_id(raw as u32) {
                if let Ok((n, start)) = uint_at(data, after_type, 8) {
                    values_at_advances(data, start, element, (n as u64 as usize) as nat);
                }
            }
        }
    }
}

/// A successful reading of values never moves back, nor beyond the end, and gives as many values
/// as were asked for.
pub proof fn values_at_advances(data: Seq<u8>, pos: int, t: GgufMetadataValueType, n: nat)
    requires
        pos <= data.len(),
    ensures
        values_at(data, pos, t, n) matches Ok((items, end)) ==> pos <= end <= data.len()
            && items.len() == n,
    decreases data.len() - pos, 1int,
{
    if n > 0 {
        value_at_advances(data, pos, t);
        if let Ok((first, next)) = value_at(data, pos, t) {
            values_at_advances(data, next, t, (n - 1) as nat);
        }
    }
}

/// A successful reading of an entry moves forward, and not beyond the end.
proof fn entry_at_advances(data: Seq<u8>, pos: int)
    ensures
        entry_at(data, pos) matches Ok((e, end)) ==> pos < end <= data.len(),
{
    if let Ok((key, after_key)) = text_at(data, pos) {
        if let Ok((raw, after_type)) = uint_at(data, after_key, 4) {
            if let Some(t) = GgufMetadataValueType::with_id(raw as u32) {
                value_at_advances(data, after_type, t);
            }
        }
    }
}

/// A successful reading of entries never moves back, nor beyond the end.
proof fn entries_at_advances(data: Seq<u8>, pos: int, n: nat)
    requires
        pos <= data.len(),
    ensures
        entries_at(data, pos, n) matches Ok((items, end)) ==> pos <= end <= data.len(),
    decreases n,
{
    if n > 0 {
        entry_at_advances(data, pos);
        if let Ok((first, next)) = entry_at(data, pos) {
            entries_at_advances(data, next, (n - 1) as nat);
        }
    }
}

/// A successful reading of dimensions never moves back, nor beyond the end.
proof fn dims_at_advances(data: Seq<u8>, pos: int, n: nat)
    requires
        pos <= data.len(),
    ensures
        dims_at(data, pos, n) matches Ok((items, end)) ==> pos <= end <= data.len(),
    decreases n,
{
    if n > 0 {
        if let Ok((first, next)) = uint_at(data, pos, 8) {
            dims_at_advances(data, next, (n - 1) as nat);
        }
    }
}

/// A successful reading of a tensor description moves forward, and not beyond the end.
proof fn tensor_at_advances(data: Seq<u8>, pos: int)
    ensures
        tensor_at(data, pos) matches Ok((t, end)) ==> pos < end <= data.len(),
{
    if let Ok((name, after_name)) = text_at(data, pos) {
        if let Ok((ndim, after_ndim)) = uint_at(data, after_name, 4) {
            dims_at_advances(data, after_ndim, ndim);
        }
    }
}

/// A successful reading of tensor descriptions never moves back, nor beyond the end.
proof fn tensors_at_advances(data: Seq<u8>, pos: int, n: nat)
    requires
        pos <= data.len(),
    ensures
        tensors_at(data, pos, n) matches Ok((items, end)) ==> pos <= end <= data.len(),
    decreases n,
{
    if n > 0 {
        tensor_at_advances(data, pos);
        if let Ok((first, next)) = tensor_at(data, pos) {
            tensors_at_advances(data, next, (n - 1) as nat);
        }
    }
}

/// Whether a reading ran out of data, no later than at `cut`.
pub open spec fn ran_out<T>(r: Result<(T, int), Stop>, cut: int) -> bool {
    r matches Err(stop) && stop.error matches GgufError::UnexpectedEof(p) && p <= cut
}

/// Whether `part` is what is left of the reading `whole` in data that end at `cut`: the same, if
/// it ends in front of that; otherwise it runs out.
spec fn cut_short<T>(
    whole: Result<(T, int), Stop>,
    part: Result<(T, int), Stop>,
    cut: int,
) -> bool {
    whole matches Ok((item, end)) ==> if end <= cut {
        part == whole
    } else {
        ran_out(part, cut)
    }
}

proof fn uint_cut_short(data: Seq<u8>, pos: int, n: int, cut: int)
    requires
        0 <= pos <= cut <= data.len(),
        0 <= n,
    ensures
        cut_short(uint_at(data, pos, n), uint_at(data.take(cut), pos, n), cut),
{
    if pos + n <= cut {
        assert(data.take(cut).subrange(pos, pos + n) =~= data.subrange(pos, pos + n));
    }
}

proof fn text_cut_short(data: Seq<u8>, pos: int, cut: int)
    requires
        0 <= pos <= cut <= data.len(),
    ensures
        cut_short(text_at(data, pos), text_at(data.take(cut), pos), cut),
{
    uint_cut_short(data, pos, 8, cut);
    if let Ok((text, end)) = text_at(data, pos) {
        if end <= cut {
            assert(data.take(cut).subrange(pos + 8, end) =~= data.subrange(pos + 8, end));
        }
    }
}

proof fn value_cut_short(data: Seq<u8>, pos: int, t: GgufMetadataValueType, cut: int)
    requires
        0 <= pos <= cut <= data.len(),
    ensures
        cut_short(value_at(data, pos, t), value_at(data.take(cut), pos, t), cut),
    decreases data.len() - pos, 0int,
{
    uint_cut_short(data, pos, 1, cut);
    uint_cut_short(data, pos, 2, cut);
    uint_cut_short(data, pos, 4, cut);
    uint_cut_short(data, pos, 8, cut);
    text_cut_short(data, pos, cut);
    if t == GgufMetadataValueType::Array && value_at(data, pos, t) is Ok {
        let (raw, after_type) = uint_at(data, pos, 4)->Ok_0;
        let element: GgufMetadataValueType = GgufMetadataValueType::with_id(raw as u32)->Some_0;
        let (n, start) = uint_at(data, after_type, 8)->Ok_0;
        let count: nat = (n as u64 as usize) as nat;
        values_at_advances(data, start, element, count);
        if after_type <= cut {
            uint_cut_short(data, after_type, 8, cut);
        }
        if start <= cut {
            values_cut_short(data, start, element, count, cut);
        }
    }
}

proof fn values_cut_short(data: Seq<u8>, pos: int, t: GgufMetadataValueType, n: nat, cut: int)
    requires
        0 <= pos <= cut <= data.len(),
    ensures
        cut_short(values_at(data, pos, t, n), values_at(data.take(cut), pos, t, n), cut),
    decreases data.len() - pos, 1int,
{
    if n > 0 && values_at(data, pos, t, n) is Ok {
        value_cut_short(data, pos, t, cut);
        let next: int = value_at(data, pos, t)->Ok_0.1;
        values_at_advances(data, next, t, (n - 1) as nat);
        if next <= cut {
            values_cut_short(data, next, t, (n - 1) as nat, cut);
        }
    }
}

proof fn entry_cut_short(data: Seq<u8>, pos: int, cut: int)
    requires
        0 <= pos <= cut <= data.len(),
    ensures
        cut_short(entry_at(data, pos), entry_at(data.take(cut), pos), cut),
{
    text_cut_short(data, pos, cut);
    if entry_at(data, pos) is Ok {
        let after_key: int = text_at(data, pos)->Ok_0.1;
        let (raw, after_type) = uint_at(data, after_key, 4)->Ok_0;
        let t: GgufMetadataValueType = GgufMetadataValueType::with_id(raw as u32)->Some_0;
        value_at_advances(data, after_type, t);
        if after_key <= cut {
            uint_cut_short(data, after_key, 4, cut);
        }
        if after_type <= cut {
            value_cut_short(data, after_type, t, cut);
        }
    }
}

proof fn entries_cut_short(data: Seq<u8>, pos: int, n: nat, cut: int)
    requires
        0 <= pos <= cut <= data.len(),
    ensures
        cut_short(entries_at(data, pos, n), entries_at(data.take(cut), pos, n), cut),
    decreases n,
{
    if n > 0 && entries_at(data, pos, n) is Ok {
        entry_cut_short(data, pos, cut);
        entry_at_advances(data, pos);
        let next: int = entry_at(data, pos)->Ok_0.1;
        entries_at_advances(data, next, (n - 1) as nat);
        if next <= cut {
            entries_cut_short(data, next, (n - 1) as nat, cut);
        }
    }
}

proof fn dims_cut_short(data: Seq<u8>, pos: int, n: nat, cut: int)
    requires
        0 <= pos <= cut <= data.len(),
    ensures
        cut_short(dims_at(data, pos, n), dims_at(data.take(cut), pos, n), cut),
    decreases n,
{
    if n > 0 && dims_at(data, pos, n) is Ok {
        uint_cut_short(data, pos, 8, cut);
        dims_at_advances(data, pos + 8, (n - 1) as nat);
        if pos + 8 <= cut {
            dims_cut_short(data, pos + 8, (n - 1) as nat, cut);
        }
    }
}

proof fn tensor_cut_short(data: Seq<u8>, pos: int, cut: int)
    requires
        0 <= pos <= cut <= data.len(),
    ensures
        cut_short(tensor_at(data, pos), tensor_at(data.take(cut), pos), cut),
{
    text_cut_short(data, pos, cut);
    if tensor_at(data, pos) is Ok {
        let after_name: int = text_at(data, pos)->Ok_0.1;
        let (ndim, after_ndim) = uint_at(data, after_name, 4)->Ok_0;
        let after_shape: int = dims_at(data, after_ndim, ndim)->Ok_0.1;
        dims_at_advances(data, after_ndim, ndim);
        if after_name <= cut {
            uint_cut_short(data, after_name, 4, cut);
        }
        if after_ndim <= cut {
            dims_cut_short(data, after_ndim, ndim, cut);
        }
        if after_shape <= cut {
            uint_cut_short(data, after_shape, 4, cut);
        }
        if after_shape + 4 <= cut {
            uint_cut_short(data, after_shape + 4, 8, cut);
        }
    }
}

proof fn tensors_cut_short(data: Seq<u8>, pos: int, n: nat, cut: int)
    requires
        0 <= pos <= cut <= data.len(),
    ensures
        cut_short(tensors_at(data, pos, n), tensors_at(data.take(cut), pos, n), cut),
    decreases n,
{
    if n > 0 && tensors_at(data, pos, n) is Ok {
        tensor_cut_short(data, pos, cut);
        tensor_at_advances(data, pos);
        let next: int = tensor_at(data, pos)->Ok_0.1;
        tensors_at_advances(data, next, (n - 1) as nat);
        if next <= cut {
            tensors_cut_short(data, next, (n - 1) as nat, cut);
        }
    }
}

/// A file that is cut anywhere inside its header is found to end too early: it is never taken for
/// a whole file, nor for one that is wrong in another way.
pub proof fn cut_header_runs_out(data: Seq<u8>, cut: int)
    requires
        header_of(data) matches Ok((header, end)) && 0 <= cut < end,
    ensures
        ran_out(header_of(data.take(cut)), cut),
{
    let tensor_count: nat = (uint_at(data, 8, 8)->Ok_0.0 as u64 as usize) as nat;
    let entry_count: nat = (uint_at(data, 16, 8)->Ok_0.0 as u64 as usize) as nat;
    entries_at_advances(data, 24, entry_count);
    let at_tensors: int = entries_at(data, 24, entry_count)->Ok_0.1;
    tensors_at_advances(data, at_tensors, tensor_count);
    uint_cut_short(data, 0, 4, cut);
    if 4 <= cut {
        uint_cut_short(data, 4, 4, cut);
    }
    if 8 <= cut {
        uint_cut_short(data, 8, 8, cut);
    }
    if 16 <= cut {
        uint_cut_short(data, 16, 8, cut);
    }
    if 24 <= cut {
        entries_cut_short(data, 24, entry_count, cut);
        if at_tensors <= cut {
            tensors_cut_short(data, at_tensors, tensor_count, cut);
        }
    }
}

/// A reading that goes on behind the items that were read before.
pub open spec fn resumed<T>(done: Seq<T>, r: Result<(Seq<T>, int), Stop>) -> Result<
    (Seq<T>, int),
    Stop,
> {
    reads(r, |rest: Seq<T>| done + rest)
}

/// One more item read in front of the rest is one more item done.
pub proof fn resume_step<T>(done: Seq<T>, first: T, r: Result<(Seq<T>, int), Stop>)
    ensures
        resumed(done, reads(r, |rest: Seq<T>| seq![first] + rest)) == resumed(done.push(first), r),
{
    if let Ok((rest, end)) = r {
        assert(done + (seq![first] + rest) =~= done.push(first) + rest);
    }
}

} // verus!
