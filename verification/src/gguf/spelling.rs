//! Bytes that spell values, wherever they stand.

use super::bytes::{byte_ranges, concat, concat_piece, le_bytes, le_round_trip, le_value};
use super::format::{
    text_at, uint_at, value_at, value_at_advances, values_at, values_at_advances, Stop,
};
use super::metadata::{GgufMetadataValueType, MetaValue};
use vstd::prelude::*;
use vstd::utf8::*;

verus! {

/// How a string is written: its length in bytes, then its bytes.
pub open spec fn text_bytes(text: Seq<char>) -> Seq<u8> {
    le_bytes(encode_utf8(text).len(), 8) + encode_utf8(text)
}

/// How an array is written: the number of its element type, its length, its elements.
pub open spec fn array_bytes(element: GgufMetadataValueType, elements: Seq<Seq<u8>>) -> Seq<u8> {
    le_bytes(element.id() as nat, 4) + le_bytes(elements.len(), 8) + concat(elements)
}

/// Whether `bytes` are those of the value `v` of type `t`, and nothing else.
pub open spec fn spells(bytes: Seq<u8>, t: GgufMetadataValueType, v: MetaValue) -> bool {
    value_at(bytes, 0, t) == Ok::<(MetaValue, int), Stop>((v, bytes.len() as int))
}

/// Whether the `len` bytes at `pa` in `a` are those at `pb` in `b`.
pub open spec fn same_window(a: Seq<u8>, pa: int, b: Seq<u8>, pb: int, len: int) -> bool {
    &&& 0 <= pa
    &&& 0 <= pb
    &&& 0 <= len
    &&& pa + len <= a.len()
    &&& pb + len <= b.len()
    &&& a.subrange(pa, pa + len) == b.subrange(pb, pb + len)
}

/// A part of equal windows is equal.
pub proof fn same_part(a: Seq<u8>, pa: int, b: Seq<u8>, pb: int, len: int, skip: int, n: int)
    requires
        same_window(a, pa, b, pb, len),
        0 <= skip,
        0 <= n,
        skip + n <= len,
    ensures
        same_window(a, pa + skip, b, pb + skip, n),
{
    let wa: Seq<u8> = a.subrange(pa, pa + len);
    let wb: Seq<u8> = b.subrange(pb, pb + len);
    assert(a.subrange(pa + skip, pa + skip + n) =~= wa.subrange(skip, skip + n));
    assert(b.subrange(pb + skip, pb + skip + n) =~= wb.subrange(skip, skip + n));
}

/// A number is read in the same way wherever its bytes stand.
pub proof fn uint_is_local(a: Seq<u8>, pa: int, b: Seq<u8>, pb: int, len: int, skip: int, n: int)
    requires
        same_window(a, pa, b, pb, len),
        0 <= skip,
        0 <= n,
        skip + n <= len,
    ensures
        uint_at(a, pa + skip, n) matches Ok((v, end)) && end == pa + skip + n && uint_at(
            b,
            pb + skip,
            n,
        ) == Ok::<(nat, int), Stop>((v, pb + skip + n)),
{
    same_part(a, pa, b, pb, len, skip, n);
}

/// A string is read in the same way wherever its bytes stand.
pub proof fn text_is_local(a: Seq<u8>, pa: int, b: Seq<u8>, pb: int, len: int)
    requires
        same_window(a, pa, b, pb, len),
        text_at(a, pa) matches Ok((s, end)) && end == pa + len,
    ensures
        text_at(b, pb) matches Ok((s, end)) && end == pb + len && text_at(a, pa) == Ok::<
            (Seq<char>, int),
            Stop,
        >((s, pa + len)),
{
    uint_is_local(a, pa, b, pb, len, 0, 8);
    same_part(a, pa, b, pb, len, 8, len - 8);
}

/// A value is read in the same way wherever its bytes stand.
pub proof fn value_is_local(
    a: Seq<u8>,
    pa: int,
    b: Seq<u8>,
    pb: int,
    t: GgufMetadataValueType,
    len: int,
)
    requires
        same_window(a, pa, b, pb, len),
        value_at(a, pa, t) matches Ok((v, end)) && end == pa + len,
    ensures
        value_at(b, pb, t) == Ok::<(MetaValue, int), Stop>(
            (value_at(a, pa, t)->Ok_0.0, pb + len),
        ),
    decreases a.len() - pa, 0int,
{
    match t {
        GgufMetadataValueType::String => {
            text_is_local(a, pa, b, pb, len);
        },
        GgufMetadataValueType::Array => {
            let (raw, after_type) = uint_at(a, pa, 4)->Ok_0;
            let element: GgufMetadataValueType = GgufMetadataValueType::with_id(raw as u32)->Some_0;
            let (n, start) = uint_at(a, after_type, 8)->Ok_0;
            let count: nat = (n as u64 as usize) as nat;
            values_at_advances(a, start, element, count);
            uint_is_local(a, pa, b, pb, len, 0, 4);
            uint_is_local(a, pa, b, pb, len, 4, 8);
            same_part(a, pa, b, pb, len, 12, len - 12);
            values_are_local(a, start, b, pb + 12, element, count, len - 12);
        },
        GgufMetadataValueType::Uint8
        | GgufMetadataValueType::Int8
        | GgufMetadataValueType::Bool => {
            uint_is_local(a, pa, b, pb, len, 0, 1);
        },
        GgufMetadataValueType::Uint16 | GgufMetadataValueType::Int16 => {
            uint_is_local(a, pa, b, pb, len, 0, 2);
        },
        GgufMetadataValueType::Uint32
        | GgufMetadataValueType::Int32
        | GgufMetadataValueType::Float32 => {
            uint_is_local(a, pa, b, pb, len, 0, 4);
        },
        GgufMetadataValueType::Uint64
        | GgufMetadataValueType::Int64
        | GgufMetadataValueType::Float64 => {
            uint_is_local(a, pa, b, pb, len, 0, 8);
        },
    }
}

/// Values one after another are read in the same way wherever their bytes stand.
pub proof fn values_are_local(
    a: Seq<u8>,
    pa: int,
    b: Seq<u8>,
    pb: int,
    t: GgufMetadataValueType,
    n: nat,
    len: int,
)
    requires
        same_window(a, pa, b, pb, len),
        values_at(a, pa, t, n) matches Ok((v, end)) && end == pa + len,
    ensures
        values_at(b, pb, t, n) == Ok::<(Seq<MetaValue>, int), Stop>(
            (values_at(a, pa, t, n)->Ok_0.0, pb + len),
        ),
    decreases a.len() - pa, 1int,
{
    if n > 0 {
        let (first, next) = value_at(a, pa, t)->Ok_0;
        value_at_advances(a, pa, t);
        values_at_advances(a, next, t, (n - 1) as nat);
        same_part(a, pa, b, pb, len, 0, next - pa);
        value_is_local(a, pa, b, pb, t, next - pa);
        same_part(a, pa, b, pb, len, next - pa, pa + len - next);
        values_are_local(
            a,
            next,
            b,
            pb + (next - pa),
            t,
            (n - 1) as nat,
            pa + len - next,
        );
    }
}

/// A number that was written at `pos` is read there.
pub proof fn written_uint_is_read(data: Seq<u8>, pos: int, value: nat, n: nat)
    requires
        0 <= pos,
        value < vstd::arithmetic::power::pow(256, n),
        pos + n <= data.len(),
        data.subrange(pos, pos + n) == le_bytes(value, n),
    ensures
        uint_at(data, pos, n as int) == Ok::<(nat, int), Stop>((value, pos + n)),
{
    le_round_trip(value, n);
}

/// A string that was written at `pos` is read there.
pub proof fn written_text_is_read(data: Seq<u8>, pos: int, text: Seq<char>)
    requires
        0 <= pos,
        encode_utf8(text).len() <= usize::MAX,
        pos + text_bytes(text).len() <= data.len(),
        data.subrange(pos, pos + text_bytes(text).len()) == text_bytes(text),
    ensures
        text_at(data, pos) == Ok::<(Seq<char>, int), Stop>(
            (text, pos + text_bytes(text).len()),
        ),
{
    let len: nat = encode_utf8(text).len();
    byte_ranges();
    le_round_trip(len, 8);
    let window: Seq<u8> = data.subrange(pos, pos + text_bytes(text).len());
    assert(data.subrange(pos, pos + 8) =~= window.subrange(0, 8));
    assert(window.subrange(0, 8) =~= le_bytes(len, 8));
    assert(data.subrange(pos + 8, pos + 8 + len) =~= window.subrange(8, 8 + len as int));
    assert(window.subrange(8, 8 + len as int) =~= encode_utf8(text));
    encode_utf8_valid_utf8(text);
    encode_utf8_decode_utf8(text);
}

/// The bytes of a string spell it.
pub proof fn text_bytes_spell(text: Seq<char>)
    requires
        encode_utf8(text).len() <= usize::MAX,
    ensures
        spells(text_bytes(text), GgufMetadataValueType::String, MetaValue::Text(text)),
{
    let bytes: Seq<u8> = text_bytes(text);
    assert(bytes.subrange(0, bytes.len() as int) =~= bytes);
    written_text_is_read(bytes, 0, text);
}

/// The four bytes of a number spell it, as an integer or as a float's bit pattern.
pub proof fn word_bytes_spell(value: u32)
    ensures
        spells(
            le_bytes(value as nat, 4),
            GgufMetadataValueType::Uint32,
            MetaValue::Uint32(value),
        ),
        spells(
            le_bytes(value as nat, 4),
            GgufMetadataValueType::Float32,
            MetaValue::Float32(value),
        ),
{
    byte_ranges();
    le_round_trip(value as nat, 4);
    let bytes: Seq<u8> = le_bytes(value as nat, 4);
    assert(bytes.subrange(0, 4) =~= bytes);
}

/// A byte of one or zero spells a truth value.
pub proof fn bool_byte_spells(value: bool)
    ensures
        spells(
            seq![if value { 1u8 } else { 0u8 }],
            GgufMetadataValueType::Bool,
            MetaValue::Bool(value),
        ),
{
    let bytes: Seq<u8> = seq![if value { 1u8 } else { 0u8 }];
    assert(bytes.subrange(0, 1) =~= bytes);
    reveal_with_fuel(le_value, 2);
}

proof fn elements_are_read(
    data: Seq<u8>,
    start: int,
    element: GgufMetadataValueType,
    pieces: Seq<Seq<u8>>,
    values: Seq<MetaValue>,
    i: int,
)
    requires
        0 <= start,
        0 <= i <= pieces.len(),
        pieces.len() == values.len(),
        forall|k: int|
            0 <= k < pieces.len() ==> #[trigger] spells(pieces[k], element, values[k]),
        same_window(concat(pieces), 0, data, start, concat(pieces).len() as int),
    ensures
        values_at(
            data,
            start + concat(pieces.take(i)).len(),
            element,
            (pieces.len() - i) as nat,
        ) == Ok::<(Seq<MetaValue>, int), Stop>(
            (values.skip(i), start + concat(pieces).len()),
        ),
    decreases pieces.len() - i,
{
    if i == pieces.len() {
        assert(pieces.take(i) =~= pieces);
        assert(values.skip(i) =~= Seq::<MetaValue>::empty());
    } else {
        let here: int = concat(pieces.take(i)).len() as int;
        let len: int = pieces[i].len() as int;
        concat_piece(pieces, i);
        same_part(concat(pieces), 0, data, start, concat(pieces).len() as int, here, len);
        assert(spells(pieces[i], element, values[i]));
        assert(pieces[i].subrange(0, len) =~= pieces[i]);
        assert(same_window(pieces[i], 0, data, start + here, len));
        value_is_local(pieces[i], 0, data, start + here, element, len);
        value_at_advances(data, start + here, element);
        elements_are_read(data, start, element, pieces, values, i + 1);
        assert(seq![values[i]] + values.skip(i + 1) =~= values.skip(i));
    }
}

/// The bytes of an array spell the array of what its elements' bytes spell.
pub proof fn array_bytes_spell(
    element: GgufMetadataValueType,
    pieces: Seq<Seq<u8>>,
    values: Seq<MetaValue>,
)
    requires
        pieces.len() == values.len(),
        pieces.len() <= usize::MAX,
        forall|k: int|
            0 <= k < pieces.len() ==> #[trigger] spells(pieces[k], element, values[k]),
    ensures
        spells(
            array_bytes(element, pieces),
            GgufMetadataValueType::Array,
            MetaValue::Array(values),
        ),
{
    let bytes: Seq<u8> = array_bytes(element, pieces);
    byte_ranges();
    le_round_trip(element.id() as nat, 4);
    le_round_trip(pieces.len(), 8);
    assert(bytes.subrange(0, 4) =~= le_bytes(element.id() as nat, 4));
    assert(bytes.subrange(4, 12) =~= le_bytes(pieces.len(), 8));
    assert(bytes.subrange(12, 12 + concat(pieces).len() as int) =~= concat(pieces));
    assert(concat(pieces).subrange(0, concat(pieces).len() as int) =~= concat(pieces));
    written_uint_is_read(bytes, 0, element.id() as nat, 4);
    written_uint_is_read(bytes, 4, pieces.len(), 8);
    elements_are_read(bytes, 12, element, pieces, values, 0);
    assert(pieces.take(0) =~= Seq::<Seq<u8>>::empty());
    assert(values.skip(0) =~= values);
}

} // verus!
