//! What was built is what is parsed.

use super::builder::{
    built, data_start, dims_bytes, entries_bytes, header_bytes, info_bytes,
    info_pieces, infos_bytes, padded, section, BuilderModel, EntryModel, TensorInput,
};
use super::bytes::{byte_ranges, concat, concat_piece, le_bytes, le_bytes_len};
use super::format::{
    body_of, dims_at, entries_at, entry_at, header_of, tensor_at, tensors_at, GgufError,
    HeaderModel, Stop, GGUF_MAGIC,
};
use super::metadata::{entries_map, MetaValue};
use super::parser::{aligned_is_least_multiple, alignment_in, GgufFile};
use super::quantize::type_id_round_trip;
use super::spelling::{text_bytes, value_is_local, written_text_is_read, written_uint_is_read};
use super::tensor::{data_size, dims_fit, tensor_models, GgufTensorInfo, TensorModel};
use vstd::prelude::*;
use vstd::utf8::*;

verus! {

/// The key of an entry with the value that its bytes spell.
pub open spec fn entry_read(e: EntryModel) -> (Seq<char>, MetaValue) {
    (e.key, e.value())
}

/// The entries as they are read.
pub open spec fn entries_read(entries: Seq<EntryModel>) -> Seq<(Seq<char>, MetaValue)> {
    entries.map_values(|e: EntryModel| entry_read(e))
}

/// The description of a tensor whose data starts at `offset` in the data section, as it is read.
pub open spec fn tensor_read(t: TensorInput, offset: int) -> TensorModel {
    TensorModel {
        name: t.name,
        ndim: t.shape.len() as u32,
        shape: t.shape,
        gguf_type: t.gguf_type,
        offset_in_data: offset as u64,
    }
}

/// The tensor descriptions as they are read.
pub open spec fn tensors_read(tensors: Seq<TensorInput>, alignment: int) -> Seq<TensorModel> {
    Seq::new(tensors.len(), |i: int| tensor_read(tensors[i], data_start(tensors, alignment, i)))
}

/// `bytes` stand in `data` at `pos`.
pub(crate) open spec fn stand_at(bytes: Seq<u8>, data: Seq<u8>, pos: int) -> bool {
    &&& 0 <= pos
    &&& pos + bytes.len() <= data.len()
    &&& data.subrange(pos, pos + bytes.len()) == bytes
}

/// Of two parts that stand together, each stands where it should.
proof fn parts_stand(a: Seq<u8>, b: Seq<u8>, data: Seq<u8>, pos: int)
    requires
        stand_at(a + b, data, pos),
    ensures
        stand_at(a, data, pos),
        stand_at(b, data, pos + a.len()),
{
    let window: Seq<u8> = data.subrange(pos, pos + (a + b).len());
    assert(data.subrange(pos, pos + a.len()) =~= window.subrange(0, a.len() as int));
    assert(window.subrange(0, a.len() as int) =~= a);
    assert(data.subrange(pos + a.len(), pos + a.len() + b.len()) =~= window.subrange(
        a.len() as int,
        (a + b).len() as int,
    ));
    assert(window.subrange(a.len() as int, (a + b).len() as int) =~= b);
}

/// Each of many pieces that stand together stands where it should.
proof fn piece_stands(pieces: Seq<Seq<u8>>, data: Seq<u8>, start: int, i: int)
    requires
        stand_at(concat(pieces), data, start),
        0 <= i < pieces.len(),
    ensures
        stand_at(pieces[i], data, start + concat(pieces.take(i)).len()),
        concat(pieces.take(i + 1)).len() == concat(pieces.take(i)).len() + pieces[i].len(),
{
    concat_piece(pieces, i);
    let here: int = concat(pieces.take(i)).len() as int;
    let window: Seq<u8> = data.subrange(start, start + concat(pieces).len());
    assert(data.subrange(start + here, start + here + pieces[i].len()) =~= window.subrange(
        here,
        here + pieces[i].len(),
    ));
}

proof fn entry_is_read(data: Seq<u8>, pos: int, e: EntryModel)
    requires
        e.spelled(),
        stand_at(e.written(), data, pos),
        data.len() <= usize::MAX,
    ensures
        entry_at(data, pos) == Ok::<((Seq<char>, MetaValue), int), Stop>(
            (entry_read(e), pos + e.written().len()),
        ),
{
    let id: nat = e.vtype.id() as nat;
    parts_stand(text_bytes(e.key) + le_bytes(id, 4), e.bytes, data, pos);
    parts_stand(text_bytes(e.key), le_bytes(id, 4), data, pos);
    le_bytes_len(encode_utf8(e.key).len(), 8);
    le_bytes_len(id, 4);
    byte_ranges();
    written_text_is_read(data, pos, e.key);
    let after_key: int = pos + text_bytes(e.key).len();
    written_uint_is_read(data, after_key, id, 4);
    let len: int = e.bytes.len() as int;
    assert(e.bytes.subrange(0, len) =~= e.bytes);
    value_is_local(e.bytes, 0, data, after_key + 4, e.vtype, len);
}

proof fn entries_are_read(data: Seq<u8>, start: int, entries: Seq<EntryModel>, i: int)
    requires
        0 <= i <= entries.len(),
        forall|k: int| 0 <= k < entries.len() ==> (#[trigger] entries[k]).spelled(),
        stand_at(entries_bytes(entries), data, start),
        data.len() <= usize::MAX,
    ensures
        entries_at(
            data,
            start + concat(entries.map_values(|e: EntryModel| e.written()).take(i)).len(),
            (entries.len() - i) as nat,
        ) == Ok::<(Seq<(Seq<char>, MetaValue)>, int), Stop>(
            (entries_read(entries).skip(i), start + entries_bytes(entries).len()),
        ),
    decreases entries.len() - i,
{
    let pieces: Seq<Seq<u8>> = entries.map_values(|e: EntryModel| e.written());
    if i == entries.len() {
        assert(pieces.take(i) =~= pieces);
        assert(entries_read(entries).skip(i) =~= Seq::<(Seq<char>, MetaValue)>::empty());
    } else {
        piece_stands(pieces, data, start, i);
        entry_is_read(data, start + concat(pieces.take(i)).len(), entries[i]);
        entries_are_read(data, start, entries, i + 1);
        assert(seq![entry_read(entries[i])] + entries_read(entries).skip(i + 1) =~= entries_read(
            entries,
        ).skip(i));
    }
}

proof fn dims_are_read(data: Seq<u8>, start: int, shape: Seq<u64>, i: int)
    requires
        0 <= i <= shape.len(),
        stand_at(dims_bytes(shape), data, start),
    ensures
        dims_at(
            data,
            start + concat(shape.map_values(|d: u64| le_bytes(d as nat, 8)).take(i)).len(),
            (shape.len() - i) as nat,
        ) == Ok::<(Seq<u64>, int), Stop>((shape.skip(i), start + dims_bytes(shape).len())),
    decreases shape.len() - i,
{
    let pieces: Seq<Seq<u8>> = shape.map_values(|d: u64| le_bytes(d as nat, 8));
    if i == shape.len() {
        assert(pieces.take(i) =~= pieces);
        assert(shape.skip(i) =~= Seq::<u64>::empty());
    } else {
        piece_stands(pieces, data, start, i);
        byte_ranges();
        le_bytes_len(shape[i] as nat, 8);
        written_uint_is_read(data, start + concat(pieces.take(i)).len(), shape[i] as nat, 8);
        dims_are_read(data, start, shape, i + 1);
        assert(seq![shape[i]] + shape.skip(i + 1) =~= shape.skip(i));
    }
}

proof fn tensor_is_read(data: Seq<u8>, pos: int, t: TensorInput, offset: int)
    requires
        stand_at(info_bytes(t, offset), data, pos),
        data.len() <= usize::MAX,
        t.shape.len() <= u32::MAX,
        0 <= offset <= u64::MAX,
    ensures
        tensor_at(data, pos) == Ok::<(TensorModel, int), Stop>(
            (tensor_read(t, offset), pos + info_bytes(t, offset).len()),
        ),
{
    let name: Seq<u8> = text_bytes(t.name);
    let ndim: Seq<u8> = le_bytes((t.shape.len() as u32) as nat, 4);
    let dims: Seq<u8> = dims_bytes(t.shape);
    let kind: Seq<u8> = le_bytes(t.gguf_type.id() as nat, 4);
    let place: Seq<u8> = le_bytes(offset as nat, 8);
    parts_stand(name + ndim + dims + kind, place, data, pos);
    parts_stand(name + ndim + dims, kind, data, pos);
    parts_stand(name + ndim, dims, data, pos);
    parts_stand(name, ndim, data, pos);
    le_bytes_len(encode_utf8(t.name).len(), 8);
    le_bytes_len((t.shape.len() as u32) as nat, 4);
    le_bytes_len(t.gguf_type.id() as nat, 4);
    le_bytes_len(offset as nat, 8);
    byte_ranges();
    written_text_is_read(data, pos, t.name);
    let at_ndim: int = pos + name.len();
    written_uint_is_read(data, at_ndim, (t.shape.len() as u32) as nat, 4);
    let at_dims: int = at_ndim + 4;
    dims_are_read(data, at_dims, t.shape, 0);
    assert(t.shape.map_values(|d: u64| le_bytes(d as nat, 8)).take(0) =~= Seq::<Seq<u8>>::empty());
    assert(t.shape.skip(0) =~= t.shape);
    let at_kind: int = at_dims + dims.len();
    written_uint_is_read(data, at_kind, t.gguf_type.id() as nat, 4);
    type_id_round_trip(t.gguf_type);
    written_uint_is_read(data, at_kind + 4, offset as nat, 8);
}

proof fn tensors_are_read(
    data: Seq<u8>,
    start: int,
    tensors: Seq<TensorInput>,
    alignment: int,
    i: int,
)
    requires
        0 <= i <= tensors.len(),
        stand_at(infos_bytes(tensors, alignment), data, start),
        data.len() <= usize::MAX,
        section(tensors, alignment).len() <= usize::MAX,
        forall|k: int| 0 <= k < tensors.len() ==> (#[trigger] tensors[k]).shape.len() <= u32::MAX,
    ensures
        tensors_at(
            data,
            start + concat(info_pieces(tensors, alignment, tensors.len()).take(i)).len(),
            (tensors.len() - i) as nat,
        ) == Ok::<(Seq<TensorModel>, int), Stop>(
            (
                tensors_read(tensors, alignment).skip(i),
                start + infos_bytes(tensors, alignment).len(),
            ),
        ),
    decreases tensors.len() - i,
{
    let pieces: Seq<Seq<u8>> = info_pieces(tensors, alignment, tensors.len());
    if i == tensors.len() {
        assert(pieces.take(i) =~= pieces);
        assert(tensors_read(tensors, alignment).skip(i) =~= Seq::<TensorModel>::empty());
    } else {
        piece_stands(pieces, data, start, i);
        section_holds(tensors, alignment, i);
        let offset: int = data_start(tensors, alignment, i);
        tensor_is_read(data, start + concat(pieces.take(i)).len(), tensors[i], offset);
        tensors_are_read(data, start, tensors, alignment, i + 1);
        assert(seq![tensor_read(tensors[i], offset)] + tensors_read(tensors, alignment).skip(i + 1)
            =~= tensors_read(tensors, alignment).skip(i));
    }
}

/// Each tensor's data stands in the data section, at its own start.
pub(crate) proof fn section_holds(tensors: Seq<TensorInput>, alignment: int, i: int)
    requires
        0 <= i < tensors.len(),
    ensures
        stand_at(
            tensors[i].data,
            section(tensors, alignment),
            data_start(tensors, alignment, i),
        ),
    decreases tensors.len(),
{
    let shorter: Seq<TensorInput> = tensors.drop_last();
    let whole: Seq<u8> = section(tensors, alignment);
    let front: Seq<u8> = padded(section(shorter, alignment), alignment);
    let at: int = data_start(tensors, alignment, i);
    let len: int = tensors[i].data.len() as int;
    if i == tensors.len() - 1 {
        assert(tensors.take(i) =~= shorter);
        assert(whole.subrange(at, at + len) =~= tensors[i].data);
    } else {
        section_holds(shorter, alignment, i);
        assert(shorter.take(i) =~= tensors.take(i));
        assert(whole.subrange(at, at + len) =~= section(shorter, alignment).subrange(at, at + len));
    }
}

/// Where the parts of the header stand in a built file.
pub(crate) proof fn header_parts_stand(b: BuilderModel)
    ensures
        stand_at(le_bytes(GGUF_MAGIC as nat, 4), built(b), 0),
        stand_at(le_bytes(b.version as nat, 4), built(b), 4),
        stand_at(le_bytes(b.tensors.len(), 8), built(b), 8),
        stand_at(le_bytes(b.metadata.len(), 8), built(b), 16),
        stand_at(entries_bytes(b.metadata), built(b), 24),
        stand_at(
            infos_bytes(b.tensors, b.alignment),
            built(b),
            24 + entries_bytes(b.metadata).len() as int,
        ),
        header_bytes(b).len() == 24 + entries_bytes(b.metadata).len() + infos_bytes(
            b.tensors,
            b.alignment,
        ).len(),
{
    let data: Seq<u8> = built(b);
    let header: Seq<u8> = header_bytes(b);
    let magic: Seq<u8> = le_bytes(GGUF_MAGIC as nat, 4);
    let version: Seq<u8> = le_bytes(b.version as nat, 4);
    let tensor_count: Seq<u8> = le_bytes(b.tensors.len(), 8);
    let entry_count: Seq<u8> = le_bytes(b.metadata.len(), 8);
    let entries: Seq<u8> = entries_bytes(b.metadata);
    let infos: Seq<u8> = infos_bytes(b.tensors, b.alignment);
    assert(data.subrange(0, header.len() as int) =~= header);
    parts_stand(magic + version + tensor_count + entry_count + entries, infos, data, 0);
    parts_stand(magic + version + tensor_count + entry_count, entries, data, 0);
    parts_stand(magic + version + tensor_count, entry_count, data, 0);
    parts_stand(magic + version, tensor_count, data, 0);
    parts_stand(magic, version, data, 0);
    le_bytes_len(GGUF_MAGIC as nat, 4);
    le_bytes_len(b.version as nat, 4);
    le_bytes_len(b.tensors.len(), 8);
    le_bytes_len(b.metadata.len(), 8);
}

/// What stands behind the counts is read as the entries and the tensors.
proof fn body_is_read(b: BuilderModel)
    requires
        b.well_formed(),
        b.fits(),
        forall|k: int|
            0 <= k < b.tensors.len() ==> (#[trigger] b.tensors[k]).shape.len() <= u32::MAX,
    ensures
        body_of(
            built(b),
            24,
            b.version,
            b.tensors.len() as usize,
            b.metadata.len() as usize,
        ) == Ok::<(HeaderModel, int), Stop>((header_read(b), header_bytes(b).len() as int)),
{
    let data: Seq<u8> = built(b);
    header_parts_stand(b);
    entries_are_read(data, 24, b.metadata, 0);
    assert(b.metadata.map_values(|e: EntryModel| e.written()).take(0) =~= Seq::<Seq<u8>>::empty());
    assert(entries_read(b.metadata).skip(0) =~= entries_read(b.metadata));
    let at_tensors: int = 24 + entries_bytes(b.metadata).len() as int;
    tensors_are_read(data, at_tensors, b.tensors, b.alignment, 0);
    assert(info_pieces(b.tensors, b.alignment, b.tensors.len()).take(0) =~= Seq::<
        Seq<u8>,
    >::empty());
    assert(tensors_read(b.tensors, b.alignment).skip(0) =~= tensors_read(b.tensors, b.alignment));
}

/// The header as it is read.
pub open spec fn header_read(b: BuilderModel) -> HeaderModel {
    HeaderModel {
        version: b.version,
        entries: entries_read(b.metadata),
        tensors: tensors_read(b.tensors, b.alignment),
    }
}

pub(crate) proof fn header_is_read(b: BuilderModel)
    requires
        b.well_formed(),
        b.fits(),
        b.version == 2 || b.version == 3,
        forall|k: int|
            0 <= k < b.tensors.len() ==> (#[trigger] b.tensors[k]).shape.len() <= u32::MAX,
    ensures
        header_of(built(b)) == Ok::<(HeaderModel, int), Stop>(
            (header_read(b), header_bytes(b).len() as int),
        ),
{
    body_is_read(b);
    let data: Seq<u8> = built(b);
    header_parts_stand(b);
    le_bytes_len(GGUF_MAGIC as nat, 4);
    le_bytes_len(b.version as nat, 4);
    le_bytes_len(b.tensors.len(), 8);
    le_bytes_len(b.metadata.len(), 8);
    byte_ranges();
    written_uint_is_read(data, 0, GGUF_MAGIC as nat, 4);
    written_uint_is_read(data, 4, b.version as nat, 4);
    written_uint_is_read(data, 8, b.tensors.len(), 8);
    written_uint_is_read(data, 16, b.metadata.len(), 8);
}

/// A file that was built parses, and says what was put into it: the version, the last value under
/// each key, the description of each tensor, and the data of each tensor at its place.
///
/// The version has to be one that files can have, a tensor cannot have more dimensions than its
/// description can count, and the metadata may not ask for another alignment than the one that
/// was used.
pub proof fn built_file_parses_back(b: BuilderModel, r: Result<GgufFile, GgufError>)
    requires
        b.well_formed(),
        b.fits(),
        b.version == 2 || b.version == 3,
        forall|k: int|
            0 <= k < b.tensors.len() ==> (#[trigger] b.tensors[k]).shape.len() <= u32::MAX,
        alignment_in(entries_map(entries_read(b.metadata))) == b.alignment,
        GgufFile::parses(built(b), r),
    ensures
        r matches Ok(file) && {
            &&& file.version == b.version
            &&& file.metadata@ == entries_map(entries_read(b.metadata))
            &&& tensor_models(file.tensors@) == tensors_read(b.tensors, b.alignment)
            &&& file.data_offset == padded(header_bytes(b), b.alignment).len()
            &&& forall|i: int|
                0 <= i < b.tensors.len() ==> file.contents().subrange(
                    file.data_offset + data_start(b.tensors, b.alignment, i),
                    file.data_offset + data_start(b.tensors, b.alignment, i)
                        + b.tensors[i].data.len(),
                ) == (#[trigger] b.tensors[i]).data
        },
{
    header_is_read(b);
    let front: Seq<u8> = padded(header_bytes(b), b.alignment);
    if b.alignment != 0 {
        aligned_is_least_multiple(header_bytes(b).len() as int, b.alignment);
    }
    let file: GgufFile = r->Ok_0;
    assert forall|i: int| 0 <= i < b.tensors.len() implies file.contents().subrange(
        file.data_offset + data_start(b.tensors, b.alignment, i),
        file.data_offset + data_start(b.tensors, b.alignment, i) + b.tensors[i].data.len(),
    ) == (#[trigger] b.tensors[i]).data by {
        section_holds(b.tensors, b.alignment, i);
        let at: int = data_start(b.tensors, b.alignment, i);
        let len: int = b.tensors[i].data.len() as int;
        assert(built(b).subrange(front.len() + at, front.len() + at + len) =~= section(
            b.tensors,
            b.alignment,
        ).subrange(at, at + len));
    }
}

/// The data of a tensor that was put into a built file is the tensor's data in the parsed file, as
/// long as it has the size that the tensor's shape and type ask for.
pub proof fn built_tensor_data_is_given_back(
    b: BuilderModel,
    r: Result<GgufFile, GgufError>,
    i: int,
)
    requires
        b.well_formed(),
        b.fits(),
        b.version == 2 || b.version == 3,
        forall|k: int|
            0 <= k < b.tensors.len() ==> (#[trigger] b.tensors[k]).shape.len() <= u32::MAX,
        alignment_in(entries_map(entries_read(b.metadata))) == b.alignment,
        GgufFile::parses(built(b), r),
        0 <= i < b.tensors.len(),
        dims_fit(b.tensors[i].shape),
        b.tensors[i].data.len() == data_size(b.tensors[i].shape, b.tensors[i].gguf_type),
    ensures
        r matches Ok(file) && {
            let t = file.tensors@[i];
            let start = file.data_offset + t.offset_in_data as usize;
            &&& t.model().name == b.tensors[i].name
            &&& t.in_bounds(file.contents().len(), file.data_offset as nat)
            &&& file.contents().subrange(start, start + data_size(t.shape@, t.gguf_type))
                == b.tensors[i].data
        },
{
    built_file_parses_back(b, r);
    let file: GgufFile = r->Ok_0;
    let at: int = data_start(b.tensors, b.alignment, i);
    described_tensor(file.tensors@, tensors_read(b.tensors, b.alignment), i);
    data_lies_in_file(b, i);
    assert(file.tensors@[i].model() == tensor_read(b.tensors[i], at));
    assert(file.tensors@[i].offset_in_data as usize == at);
}

proof fn described_tensor(tensors: Seq<GgufTensorInfo>, models: Seq<TensorModel>, i: int)
    requires
        tensor_models(tensors) == models,
        0 <= i < models.len(),
    ensures
        i < tensors.len(),
        tensors[i].model() == models[i],
{
    assert(tensor_models(tensors).len() == tensors.len());
}

proof fn data_lies_in_file(b: BuilderModel, i: int)
    requires
        0 <= i < b.tensors.len(),
    ensures
        0 <= data_start(b.tensors, b.alignment, i),
        padded(header_bytes(b), b.alignment).len() + data_start(b.tensors, b.alignment, i)
            + b.tensors[i].data.len() <= built(b).len(),
{
    section_holds(b.tensors, b.alignment, i);
}

} // verus!
