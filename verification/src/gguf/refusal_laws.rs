//! For what a file that is cut or holds what cannot be read is refused.

use super::file_laws::{
    entries_are_read, marks_stay_inside, numbers_are_read, says_entries, says_entry, says_tensors,
    says_text, start_is_read, starts_file, tensors_are_read, text_is_read,
};
use super::format::{entries_at, entry_at, tensors_at, text_at, value_at, GgufError};
use super::metadata::{GgufMetadataValueType, MetaValue};
use super::parser::GgufFile;
use super::tensor::TensorModel;
use crate::float_laws::{eight_bytes, four_bytes};
use vstd::prelude::*;
use vstd::utf8::valid_utf8;

verus! {

/// A file that ends in the middle of its first numbers is refused for ending, at the number that is
/// cut.
pub proof fn files_without_start_are_refused(data: Vec<u8>, r: Result<GgufFile, GgufError>)
    requires
        call_ensures(GgufFile::from_bytes, (data,), r),
    ensures
        ({
            let bytes = data@;
            let ends_at = |p: int| r == Err::<GgufFile, GgufError>(
                GgufError::UnexpectedEof(p as usize),
            );
            let magic = four_bytes(bytes, 0) == 0x4655_4747;
            let version = four_bytes(bytes, 4);
            let goes_on = magic && (version == 2 || version == 3);
            &&& bytes.len() < 4 ==> ends_at(0)
            &&& 4 <= bytes.len() < 8 && magic ==> ends_at(4)
            &&& 8 <= bytes.len() < 16 && goes_on ==> ends_at(8)
            &&& 16 <= bytes.len() < 24 && goes_on ==> ends_at(16)
        }),
{
    numbers_are_read(data@, 0);
    numbers_are_read(data@, 4);
    numbers_are_read(data@, 8);
}

/// Why the text that stands at `at` cannot be read: its length or the text itself is cut, or the
/// text is not valid.
pub open spec fn text_fault(data: Seq<u8>, at: int) -> Option<GgufError> {
    let len = eight_bytes(data, at) as int;
    if at + 8 > data.len() {
        Some(GgufError::UnexpectedEof(at as usize))
    } else if at + 8 + len > data.len() {
        Some(GgufError::UnexpectedEof((at + 8) as usize))
    } else if !valid_utf8(data.subrange(at + 8, at + 8 + len)) {
        Some(GgufError::InvalidUtf8((at + 8) as usize))
    } else {
        None
    }
}

proof fn faulty_text_is_not_read(data: Seq<u8>, at: int)
    requires
        0 <= at <= data.len() <= usize::MAX,
        eight_bytes(data, at) <= usize::MAX,
    ensures
        text_fault(data, at) matches Some(fault) ==> (text_at(data, at) matches Err(stop)
            && stop.error == fault),
{
    numbers_are_read(data, at);
}

/// A file whose entries are read up to one with a key that cannot be read is refused for that key.
pub proof fn faulty_keys_are_refused(
    data: Vec<u8>,
    r: Result<GgufFile, GgufError>,
    version: nat,
    tensor_count: nat,
    entry_count: nat,
    entries: Seq<(Seq<char>, MetaValue)>,
    marks: Seq<int>,
    fault: GgufError,
)
    requires
        call_ensures(GgufFile::from_bytes, (data,), r),
        data@.len() <= usize::MAX,
        starts_file(data@, version, tensor_count, entry_count),
        version == 2 || version == 3,
        tensor_count <= usize::MAX,
        entries.len() < entry_count <= usize::MAX,
        says_entries(data@, marks, entries),
        marks[0] == 24,
        eight_bytes(data@, marks[entries.len() as int]) <= usize::MAX,
        text_fault(data@, marks[entries.len() as int]) == Some(fault),
    ensures
        r == Err::<GgufFile, GgufError>(fault),
{
    let n: int = entries.len() as int;
    let more: nat = (entry_count - n) as nat;
    entries_are_read(data@, marks, entries, more, 0);
    if n > 0 {
        let e: (Seq<char>, MetaValue) = entries[n - 1];
        assert(says_entry(data@, marks[n - 1], marks[n - 1 + 1], e.0, e.1));
    }
    faulty_text_is_not_read(data@, marks[n]);
    assert(entries_at(data@, marks[n], more) matches Err(stop) && stop.error == fault);
    start_is_read(data@, version, tensor_count, entry_count);
}

/// How many bytes a value of a type takes by the type's number, for those that all take as many.
pub open spec fn bytes_of_number(t: nat) -> int {
    if t == 0 || t == 1 || t == 7 {
        1
    } else if t == 2 || t == 3 {
        2
    } else if t == 4 || t == 5 || t == 6 {
        4
    } else {
        8
    }
}

/// Why the value that stands at `at` cannot be read, given the number of its type: it is cut, or is
/// a text that cannot be read, or an array whose head is cut or tells of a type that there is not.
pub open spec fn value_fault(data: Seq<u8>, at: int, t: nat) -> Option<GgufError> {
    if t == 8 {
        text_fault(data, at)
    } else if t == 9 {
        if at + 4 > data.len() {
            Some(GgufError::UnexpectedEof(at as usize))
        } else if four_bytes(data, at) > 12 {
            Some(GgufError::UnknownValueType(four_bytes(data, at) as u32))
        } else if at + 12 > data.len() {
            Some(GgufError::UnexpectedEof((at + 4) as usize))
        } else {
            None
        }
    } else if at + bytes_of_number(t) > data.len() {
        Some(GgufError::UnexpectedEof(at as usize))
    } else {
        None
    }
}

proof fn faulty_value_is_not_read(data: Seq<u8>, at: int, t: nat)
    requires
        0 <= at <= data.len() <= usize::MAX,
        t <= 12,
        eight_bytes(data, at) <= usize::MAX,
    ensures
        value_fault(data, at, t) matches Some(fault) ==> (GgufMetadataValueType::with_id(
            t as u32,
        ) matches Some(value_type) && value_at(data, at, value_type) matches Err(stop)
            && stop.error == fault),
{
    numbers_are_read(data, at);
    faulty_text_is_not_read(data, at);
    if at + 4 <= data.len() {
        numbers_are_read(data, at + 4);
    }
}

/// A file whose entries are read up to one with a value that cannot be read, or without the type of
/// the value, is refused for that.
pub proof fn faulty_values_are_refused(
    data: Vec<u8>,
    r: Result<GgufFile, GgufError>,
    version: nat,
    tensor_count: nat,
    entry_count: nat,
    entries: Seq<(Seq<char>, MetaValue)>,
    marks: Seq<int>,
    key: Seq<char>,
    middle: int,
)
    requires
        call_ensures(GgufFile::from_bytes, (data,), r),
        data@.len() <= usize::MAX,
        starts_file(data@, version, tensor_count, entry_count),
        version == 2 || version == 3,
        tensor_count <= usize::MAX,
        entries.len() < entry_count <= usize::MAX,
        says_entries(data@, marks, entries),
        marks[0] == 24,
        says_text(data@, marks[entries.len() as int], middle, key),
    ensures
        middle + 4 > data@.len() ==> r == Err::<GgufFile, GgufError>(
            GgufError::UnexpectedEof(middle as usize),
        ),
        middle + 4 <= data@.len() && four_bytes(data@, middle) <= 12 && eight_bytes(
            data@,
            middle + 4,
        ) <= usize::MAX ==> (value_fault(
            data@,
            middle + 4,
            four_bytes(data@, middle),
        ) matches Some(fault) ==> r == Err::<GgufFile, GgufError>(fault)),
{
    let n: int = entries.len() as int;
    let more: nat = (entry_count - n) as nat;
    let t: nat = four_bytes(data@, middle);
    text_is_read(data@, marks[n], middle, key);
    numbers_are_read(data@, middle);
    if middle + 4 <= data@.len() && t <= 12 && eight_bytes(data@, middle + 4) <= usize::MAX {
        faulty_value_is_not_read(data@, middle + 4, t);
        if let Some(fault) = value_fault(data@, middle + 4, t) {
            assert(entry_at(data@, marks[n]) matches Err(stop) && stop.error == fault);
            assert(entries_at(data@, marks[n], more) matches Err(stop) && stop.error == fault);
        }
    }
    entries_are_read(data@, marks, entries, more, 0);
    start_is_read(data@, version, tensor_count, entry_count);
}

/// A file whose tensors are read up to one with a name that cannot be read is refused for that
/// name.
pub proof fn faulty_names_are_refused(
    data: Vec<u8>,
    r: Result<GgufFile, GgufError>,
    version: nat,
    tensor_count: nat,
    entries: Seq<(Seq<char>, MetaValue)>,
    entry_marks: Seq<int>,
    tensors: Seq<TensorModel>,
    marks: Seq<int>,
    fault: GgufError,
)
    requires
        call_ensures(GgufFile::from_bytes, (data,), r),
        data@.len() <= usize::MAX,
        starts_file(data@, version, tensor_count, entries.len()),
        version == 2 || version == 3,
        tensors.len() < tensor_count <= usize::MAX,
        entries.len() <= usize::MAX,
        says_entries(data@, entry_marks, entries),
        entry_marks[0] == 24,
        says_tensors(data@, marks, tensors),
        marks[0] == entry_marks[entries.len() as int],
        eight_bytes(data@, marks[tensors.len() as int]) <= usize::MAX,
        text_fault(data@, marks[tensors.len() as int]) == Some(fault),
    ensures
        r == Err::<GgufFile, GgufError>(fault),
{
    let n: int = tensors.len() as int;
    let more: nat = (tensor_count - n) as nat;
    marks_stay_inside(data@, entry_marks, entries, marks, tensors);
    faulty_text_is_not_read(data@, marks[n]);
    assert(tensors_at(data@, marks[n], more) matches Err(stop) && stop.error == fault);
    tensors_are_read(data@, marks, tensors, more, 0);
    assert(tensors_at(data@, marks[0], tensor_count) matches Err(stop) && stop.error == fault);
    entries_are_read(data@, entry_marks, entries, 0, 0);
    assert(entries.skip(0) + Seq::<(Seq<char>, MetaValue)>::empty() =~= entries);
    start_is_read(data@, version, tensor_count, entries.len());
}

} // verus!
