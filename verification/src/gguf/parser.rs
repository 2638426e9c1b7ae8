//! GGUF binary file parser.

use super::architectures::ModelArchitecture;
use super::bytes::{le_u16, le_u32, le_u64, le_value};
use super::detect::{detect_architecture, detected, names_of};
use super::format::{
    cut_header_runs_out, dims_at, entries_at, header_of, ran_out, reads, resume_step, resumed,
    tensor_at, tensors_at, text_at, uint_at, value_at, value_at_advances, values_at, GgufError,
    HeaderModel, Stop, DEFAULT_ALIGNMENT, GGUF_MAGIC,
};
use super::metadata::{
    entries_map, entry_models, lookup, models_of, GgufMetadata, GgufMetadataValue,
    GgufMetadataValueType, MetaValue,
};
use super::quantize::GgufType;
use super::tensor::{data_size, tensor_models, GgufTensorInfo, TensorModel};
use crate::text::same_text;
use vstd::arithmetic::div_mod::*;
use vstd::prelude::*;
use vstd::slice::slice_subrange;
use vstd::utf8::*;

verus! {

/// Calls `std::str::from_utf8`: gives the text exactly when the bytes are valid UTF-8, and then
/// the text that is encoded by them.
#[verifier::external_body]
fn utf8_text(bytes: &[u8]) -> (r: Option<&str>)
    ensures
        r is Some <==> valid_utf8(bytes@),
        r matches Some(s) ==> encode_utf8(s@) == bytes@,
{
    std::str::from_utf8(bytes).ok()
}

/// A cursor for reading from the file's bytes.
struct Reader<'a> {
    data: &'a [u8],
    pos: usize,
}

impl<'a> Reader<'a> {
    spec fn wf(self) -> bool {
        self.pos <= self.data.len()
    }

    /// Whether a reading by this cursor, which was `before`, went as `expected` says.
    spec fn did<T>(
        self,
        before: Reader<'a>,
        r: Result<T, GgufError>,
        expected: Result<(T, int), Stop>,
    ) -> bool {
        &&& self.wf()
        &&& self.data == before.data
        &&& match expected {
            Ok((item, end)) => r == Ok::<T, GgufError>(item) && self.pos == end,
            Err(stop) => r == Err::<T, GgufError>(stop.error) && self.pos == stop.at,
        }
    }

    fn new(data: &'a [u8]) -> (r: Reader<'a>)
        ensures
            r.wf(),
            r.data == data,
            r.pos == 0,
    {
        Reader { data, pos: 0 }
    }

    fn remaining(&self) -> (r: usize)
        requires
            self.wf(),
        ensures
            r == self.data@.len() - self.pos,
    {
        self.data.len() - self.pos
    }

    fn check(&self, n: usize) -> (r: Result<(), GgufError>)
        requires
            self.wf(),
        ensures
            r == (if self.pos + n <= self.data.len() {
                Ok::<(), GgufError>(())
            } else {
                Err::<(), GgufError>(GgufError::UnexpectedEof(self.pos))
            }),
    {
        if self.remaining() < n {
            Err(GgufError::UnexpectedEof(self.pos))
        } else {
            Ok(())
        }
    }

    fn read_u8(&mut self) -> (r: Result<u8, GgufError>)
        requires
            old(self).wf(),
        ensures
            final(self).did(
                *old(self),
                r,
                reads(uint_at(old(self).data@, old(self).pos as int, 1), |v: nat| v as u8),
            ),
            r matches Ok(v) ==> uint_at(old(self).data@, old(self).pos as int, 1) == Ok::<
                (nat, int),
                Stop,
            >((v as nat, final(self).pos as int)),
    {
        match self.check(1) {
            Err(e) => Err(e),
            Ok(_) => {
                let v: u8 = self.data[self.pos];
                proof {
                    reveal_with_fuel(le_value, 2);
                }
                self.pos = self.pos + 1;
                Ok(v)
            },
        }
    }

    fn read_i8(&mut self) -> (r: Result<i8, GgufError>)
        requires
            old(self).wf(),
        ensures
            final(self).did(
                *old(self),
                r,
                reads(uint_at(old(self).data@, old(self).pos as int, 1), |v: nat| v as u8 as i8),
            ),
    {
        match self.read_u8() {
            Err(e) => Err(e),
            Ok(v) => Ok(v as i8),
        }
    }

    fn read_u16(&mut self) -> (r: Result<u16, GgufError>)
        requires
            old(self).wf(),
        ensures
            final(self).did(
                *old(self),
                r,
                reads(uint_at(old(self).data@, old(self).pos as int, 2), |v: nat| v as u16),
            ),
    {
        match self.check(2) {
            Err(e) => Err(e),
            Ok(_) => {
                let v: u16 = le_u16(self.data, self.pos);
                self.pos = self.pos + 2;
                Ok(v)
            },
        }
    }

    fn read_i16(&mut self) -> (r: Result<i16, GgufError>)
        requires
            old(self).wf(),
        ensures
            final(self).did(
                *old(self),
                r,
                reads(uint_at(old(self).data@, old(self).pos as int, 2), |v: nat| v as u16 as i16),
            ),
    {
        match self.read_u16() {
            Err(e) => Err(e),
            Ok(v) => Ok(v as i16),
        }
    }

    fn read_u32(&mut self) -> (r: Result<u32, GgufError>)
        requires
            old(self).wf(),
        ensures
            final(self).did(
                *old(self),
                r,
                reads(uint_at(old(self).data@, old(self).pos as int, 4), |v: nat| v as u32),
            ),
            r matches Ok(v) ==> uint_at(old(self).data@, old(self).pos as int, 4) == Ok::<
                (nat, int),
                Stop,
            >((v as nat, final(self).pos as int)),
    {
        match self.check(4) {
            Err(e) => Err(e),
            Ok(_) => {
                let v: u32 = le_u32(self.data, self.pos);
                self.pos = self.pos + 4;
                Ok(v)
            },
        }
    }

    fn read_i32(&mut self) -> (r: Result<i32, GgufError>)
        requires
            old(self).wf(),
        ensures
            final(self).did(
                *old(self),
                r,
                reads(uint_at(old(self).data@, old(self).pos as int, 4), |v: nat| v as u32 as i32),
            ),
    {
        match self.read_u32() {
            Err(e) => Err(e),
            Ok(v) => Ok(v as i32),
        }
    }

    fn read_u64(&mut self) -> (r: Result<u64, GgufError>)
        requires
            old(self).wf(),
        ensures
            final(self).did(
                *old(self),
                r,
                reads(uint_at(old(self).data@, old(self).pos as int, 8), |v: nat| v as u64),
            ),
            r matches Ok(v) ==> uint_at(old(self).data@, old(self).pos as int, 8) == Ok::<
                (nat, int),
                Stop,
            >((v as nat, final(self).pos as int)),
    {
        match self.check(8) {
            Err(e) => Err(e),
            Ok(_) => {
                let v: u64 = le_u64(self.data, self.pos);
                self.pos = self.pos + 8;
                Ok(v)
            },
        }
    }

    fn read_i64(&mut self) -> (r: Result<i64, GgufError>)
        requires
            old(self).wf(),
        ensures
            final(self).did(
                *old(self),
                r,
                reads(uint_at(old(self).data@, old(self).pos as int, 8), |v: nat| v as u64 as i64),
            ),
    {
        match self.read_u64() {
            Err(e) => Err(e),
            Ok(v) => Ok(v as i64),
        }
    }

    /// Read the bit pattern of a 32-bit float.
    fn read_f32(&mut self) -> (r: Result<u32, GgufError>)
        requires
            old(self).wf(),
        ensures
            final(self).did(
                *old(self),
                r,
                reads(uint_at(old(self).data@, old(self).pos as int, 4), |v: nat| v as u32),
            ),
    {
        self.read_u32()
    }

    /// Read the bit pattern of a 64-bit float.
    fn read_f64(&mut self) -> (r: Result<u64, GgufError>)
        requires
            old(self).wf(),
        ensures
            final(self).did(
                *old(self),
                r,
                reads(uint_at(old(self).data@, old(self).pos as int, 8), |v: nat| v as u64),
            ),
    {
        self.read_u64()
    }

    /// Read a GGUF string: u64 length + bytes.
    fn read_string(&mut self) -> (r: Result<String, GgufError>)
        requires
            old(self).wf(),
        ensures
            final(self).wf(),
            final(self).data == old(self).data,
            match text_at(old(self).data@, old(self).pos as int) {
                Ok((text, end)) => r matches Ok(s) && s@ == text && final(self).pos == end,
                Err(stop) => r == Err::<String, GgufError>(stop.error) && final(self).pos
                    == stop.at,
            },
    {
        match self.read_u64() {
            Err(e) => Err(e),
            Ok(n) => {
                let len: usize = n as usize;
                match self.check(len) {
                    Err(e) => Err(e),
                    Ok(_) => {
                        let bytes: &[u8] = slice_subrange(self.data, self.pos, self.pos + len);
                        match utf8_text(bytes) {
                            None => Err(GgufError::InvalidUtf8(self.pos)),
                            Some(text) => {
                                proof {
                                    encode_utf8_decode_utf8(text@);
                                }
                                self.pos = self.pos + len;
                                Ok(text.to_owned())
                            },
                        }
                    },
                }
            },
        }
    }

    /// Read the elements of an array.
    fn read_values(&mut self, element: GgufMetadataValueType, len: usize) -> (r: Result<
        Vec<GgufMetadataValue>,
        GgufError,
    >)
        requires
            old(self).wf(),
        ensures
            final(self).wf(),
            final(self).data == old(self).data,
            match values_at(old(self).data@, old(self).pos as int, element, len as nat) {
                Ok((items, end)) => r matches Ok(arr) && models_of(arr@) == items
                    && final(self).pos == end,
                Err(stop) => r == Err::<Vec<GgufMetadataValue>, GgufError>(stop.error)
                    && final(self).pos == stop.at,
            },
        decreases old(self).data@.len() - old(self).pos, 1int,
    {
        let ghost data: Seq<u8> = self.data@;
        let ghost start: int = self.pos as int;
        let mut arr: Vec<GgufMetadataValue> = Vec::new();
        let mut i: usize = 0;
        proof {
            let whole: Result<(Seq<MetaValue>, int), Stop> = values_at(
                data,
                start,
                element,
                len as nat,
            );
            if let Ok((items, end)) = whole {
                assert(models_of(arr@) + items =~= items);
            }
        }
        while i < len
            invariant
                self.wf(),
                self.data == old(self).data,
                data == self.data@,
                start == old(self).pos,
                start <= self.pos,
                i <= len,
                values_at(data, start, element, len as nat) == resumed(
                    models_of(arr@),
                    values_at(data, self.pos as int, element, (len - i) as nat),
                ),
            decreases len - i,
        {
            proof {
                value_at_advances(data, self.pos as int, element);
            }
            match self.read_metadata_value(element) {
                Err(e) => {
                    return Err(e);
                },
                Ok(value) => {
                    proof {
                        resume_step(
                            models_of(arr@),
                            value.model(),
                            values_at(data, self.pos as int, element, (len - i - 1) as nat),
                        );
                        assert(models_of(arr@.push(value)) =~= models_of(arr@).push(value.model()));
                    }
                    arr.push(value);
                },
            }
            i = i + 1;
        }
        assert(models_of(arr@) + Seq::<MetaValue>::empty() =~= models_of(arr@));
        Ok(arr)
    }

    /// Read a metadata value of the given type.
    fn read_metadata_value(&mut self, vtype: GgufMetadataValueType) -> (r: Result<
        GgufMetadataValue,
        GgufError,
    >)
        requires
            old(self).wf(),
        ensures
            final(self).wf(),
            final(self).data == old(self).data,
            match value_at(old(self).data@, old(self).pos as int, vtype) {
                Ok((value, end)) => r matches Ok(v) && v.model() == value && final(self).pos == end,
                Err(stop) => r == Err::<GgufMetadataValue, GgufError>(stop.error) && final(self).pos
                    == stop.at,
            },
        decreases old(self).data@.len() - old(self).pos, 0int,
    {
        match vtype {
            GgufMetadataValueType::Uint8 => match self.read_u8() {
                Err(e) => Err(e),
                Ok(v) => Ok(GgufMetadataValue::Uint8(v)),
            },
            GgufMetadataValueType::Int8 => match self.read_i8() {
                Err(e) => Err(e),
                Ok(v) => Ok(GgufMetadataValue::Int8(v)),
            },
            GgufMetadataValueType::Uint16 => match self.read_u16() {
                Err(e) => Err(e),
                Ok(v) => Ok(GgufMetadataValue::Uint16(v)),
            },
            GgufMetadataValueType::Int16 => match self.read_i16() {
                Err(e) => Err(e),
                Ok(v) => Ok(GgufMetadataValue::Int16(v)),
            },
            GgufMetadataValueType::Uint32 => match self.read_u32() {
                Err(e) => Err(e),
                Ok(v) => Ok(GgufMetadataValue::Uint32(v)),
            },
            GgufMetadataValueType::Int32 => match self.read_i32() {
                Err(e) => Err(e),
                Ok(v) => Ok(GgufMetadataValue::Int32(v)),
            },
            GgufMetadataValueType::Float32 => match self.read_f32() {
                Err(e) => Err(e),
                Ok(v) => Ok(GgufMetadataValue::Float32(v)),
            },
            GgufMetadataValueType::Bool => match self.read_u8() {
                Err(e) => Err(e),
                Ok(v) => Ok(GgufMetadataValue::Bool(v != 0)),
            },
            GgufMetadataValueType::String => match self.read_string() {
                Err(e) => Err(e),
                Ok(s) => Ok(GgufMetadataValue::String(s)),
            },
            GgufMetadataValueType::Array => match self.read_u32() {
                Err(e) => Err(e),
                Ok(raw) => match GgufMetadataValueType::from_u32(raw) {
                    None => Err(GgufError::UnknownValueType(raw)),
                    Some(element) => match self.read_u64() {
                        Err(e) => Err(e),
                        Ok(n) => match self.read_values(element, n as usize) {
                            Err(e) => Err(e),
                            Ok(arr) => {
                                let value: GgufMetadataValue = GgufMetadataValue::Array(arr);
                                assert(value.model()->Array_0 =~= models_of(
                                    value->Array_0@,
                                ));
                                Ok(value)
                            },
                        },
                    },
                },
            },
            GgufMetadataValueType::Uint64 => match self.read_u64() {
                Err(e) => Err(e),
                Ok(v) => Ok(GgufMetadataValue::Uint64(v)),
            },
            GgufMetadataValueType::Int64 => match self.read_i64() {
                Err(e) => Err(e),
                Ok(v) => Ok(GgufMetadataValue::Int64(v)),
            },
            GgufMetadataValueType::Float64 => match self.read_f64() {
                Err(e) => Err(e),
                Ok(v) => Ok(GgufMetadataValue::Float64(v)),
            },
        }
    }

    /// Read the metadata key-value pairs.
    fn read_entries(&mut self, count: usize) -> (r: Result<
        Vec<(String, GgufMetadataValue)>,
        GgufError,
    >)
        requires
            old(self).wf(),
        ensures
            final(self).wf(),
            final(self).data == old(self).data,
            match entries_at(old(self).data@, old(self).pos as int, count as nat) {
                Ok((items, end)) => r matches Ok(v) && entry_models(v@) == items
                    && final(self).pos == end,
                Err(stop) => r == Err::<Vec<(String, GgufMetadataValue)>, GgufError>(stop.error)
                    && final(self).pos == stop.at,
            },
    {
        let ghost data: Seq<u8> = self.data@;
        let ghost start: int = self.pos as int;
        let mut entries: Vec<(String, GgufMetadataValue)> = Vec::new();
        let mut i: usize = 0;
        proof {
            if let Ok((items, end)) = entries_at(data, start, count as nat) {
                assert(entry_models(entries@) + items =~= items);
            }
        }
        while i < count
            invariant
                self.wf(),
                self.data == old(self).data,
                data == self.data@,
                start == old(self).pos,
                i <= count,
                entries_at(data, start, count as nat) == resumed(
                    entry_models(entries@),
                    entries_at(data, self.pos as int, (count - i) as nat),
                ),
            decreases count - i,
        {
            let key: String = match self.read_string() {
                Err(e) => {
                    return Err(e);
                },
                Ok(key) => key,
            };
            let raw: u32 = match self.read_u32() {
                Err(e) => {
                    return Err(e);
                },
                Ok(raw) => raw,
            };
            let vtype: GgufMetadataValueType = match GgufMetadataValueType::from_u32(raw) {
                None => {
                    return Err(GgufError::UnknownValueType(raw));
                },
                Some(vtype) => vtype,
            };
            let value: GgufMetadataValue = match self.read_metadata_value(vtype) {
                Err(e) => {
                    return Err(e);
                },
                Ok(value) => value,
            };
            proof {
                resume_step(
                    entry_models(entries@),
                    (key@, value.model()),
                    entries_at(data, self.pos as int, (count - i - 1) as nat),
                );
                assert(entry_models(entries@.push((key, value))) =~= entry_models(entries@).push(
                    (key@, value.model()),
                ));
            }
            entries.push((key, value));
            i = i + 1;
        }
        assert(entry_models(entries@) + Seq::<(Seq<char>, MetaValue)>::empty() =~= entry_models(
            entries@,
        ));
        Ok(entries)
    }

    /// Read the dimensions of a tensor.
    fn read_dims(&mut self, ndim: u32) -> (r: Result<Vec<u64>, GgufError>)
        requires
            old(self).wf(),
        ensures
            final(self).wf(),
            final(self).data == old(self).data,
            match dims_at(old(self).data@, old(self).pos as int, ndim as nat) {
                Ok((dims, end)) => r matches Ok(v) && v@ == dims && final(self).pos == end,
                Err(stop) => r == Err::<Vec<u64>, GgufError>(stop.error) && final(self).pos
                    == stop.at,
            },
    {
        let ghost data: Seq<u8> = self.data@;
        let ghost start: int = self.pos as int;
        let mut shape: Vec<u64> = Vec::new();
        let mut i: u32 = 0;
        proof {
            if let Ok((dims, end)) = dims_at(data, start, ndim as nat) {
                assert(shape@ + dims =~= dims);
            }
        }
        while i < ndim
            invariant
                self.wf(),
                self.data == old(self).data,
                data == self.data@,
                start == old(self).pos,
                i <= ndim,
                dims_at(data, start, ndim as nat) == resumed(
                    shape@,
                    dims_at(data, self.pos as int, (ndim - i) as nat),
                ),
            decreases ndim - i,
        {
            let dim: u64 = match self.read_u64() {
                Err(e) => {
                    return Err(e);
                },
                Ok(dim) => dim,
            };
            proof {
                resume_step(shape@, dim, dims_at(data, self.pos as int, (ndim - i - 1) as nat));
            }
            shape.push(dim);
            i = i + 1;
        }
        assert(shape@ + Seq::<u64>::empty() =~= shape@);
        Ok(shape)
    }

    /// Read one tensor description.
    fn read_tensor(&mut self) -> (r: Result<GgufTensorInfo, GgufError>)
        requires
            old(self).wf(),
        ensures
            final(self).wf(),
            final(self).data == old(self).data,
            match tensor_at(old(self).data@, old(self).pos as int) {
                Ok((tensor, end)) => r matches Ok(t) && t.model() == tensor && final(self).pos
                    == end,
                Err(stop) => r == Err::<GgufTensorInfo, GgufError>(stop.error) && final(self).pos
                    == stop.at,
            },
    {
        let name: String = match self.read_string() {
            Err(e) => {
                return Err(e);
            },
            Ok(name) => name,
        };
        let ndim: u32 = match self.read_u32() {
            Err(e) => {
                return Err(e);
            },
            Ok(ndim) => ndim,
        };
        let shape: Vec<u64> = match self.read_dims(ndim) {
            Err(e) => {
                return Err(e);
            },
            Ok(shape) => shape,
        };
        let raw: u32 = match self.read_u32() {
            Err(e) => {
                return Err(e);
            },
            Ok(raw) => raw,
        };
        let gguf_type: GgufType = match GgufType::from_u32(raw) {
            None => {
                return Err(GgufError::UnknownTensorType(raw));
            },
            Some(gguf_type) => gguf_type,
        };
        match self.read_u64() {
            Err(e) => Err(e),
            Ok(offset_in_data) => Ok(
                GgufTensorInfo { name, ndim, shape, gguf_type, offset_in_data },
            ),
        }
    }

    /// Read the tensor descriptions.
    fn read_tensors(&mut self, count: usize) -> (r: Result<Vec<GgufTensorInfo>, GgufError>)
        requires
            old(self).wf(),
        ensures
            final(self).wf(),
            final(self).data == old(self).data,
            match tensors_at(old(self).data@, old(self).pos as int, count as nat) {
                Ok((tensors, end)) => r matches Ok(v) && tensor_models(v@) == tensors
                    && final(self).pos == end,
                Err(stop) => r == Err::<Vec<GgufTensorInfo>, GgufError>(stop.error)
                    && final(self).pos == stop.at,
            },
    {
        let ghost data: Seq<u8> = self.data@;
        let ghost start: int = self.pos as int;
        let mut tensors: Vec<GgufTensorInfo> = Vec::new();
        let mut i: usize = 0;
        proof {
            if let Ok((items, end)) = tensors_at(data, start, count as nat) {
                assert(tensor_models(tensors@) + items =~= items);
            }
        }
        while i < count
            invariant
                self.wf(),
                self.data == old(self).data,
                data == self.data@,
                start == old(self).pos,
                i <= count,
                tensors_at(data, start, count as nat) == resumed(
                    tensor_models(tensors@),
                    tensors_at(data, self.pos as int, (count - i) as nat),
                ),
            decreases count - i,
        {
            let tensor: GgufTensorInfo = match self.read_tensor() {
                Err(e) => {
                    return Err(e);
                },
                Ok(tensor) => tensor,
            };
            proof {
                resume_step(
                    tensor_models(tensors@),
                    tensor.model(),
                    tensors_at(data, self.pos as int, (count - i - 1) as nat),
                );
                assert(tensor_models(tensors@.push(tensor)) =~= tensor_models(tensors@).push(
                    tensor.model(),
                ));
            }
            tensors.push(tensor);
            i = i + 1;
        }
        assert(tensor_models(tensors@) + Seq::<TensorModel>::empty() =~= tensor_models(tensors@));
        Ok(tensors)
    }
}

/// The least multiple of `alignment` that is not below `value`. An alignment of zero has no
/// multiples to align to.
pub open spec fn aligned(value: int, alignment: int) -> int {
    if alignment == 0 {
        value
    } else {
        (value + alignment - 1) / alignment * alignment
    }
}

/// The result is a multiple of the alignment, is not below the value, and no other such multiple
/// is smaller.
pub proof fn aligned_is_least_multiple(value: int, alignment: int)
    requires
        0 <= value,
        0 < alignment,
    ensures
        aligned(value, alignment) % alignment == 0,
        value <= aligned(value, alignment) < value + alignment,
        forall|m: int| value <= m && #[trigger] (m % alignment) == 0 ==> aligned(value, alignment)
            <= m,
{
    let q: int = (value + alignment - 1) / alignment;
    let r: int = aligned(value, alignment);
    lemma_fundamental_div_mod(value + alignment - 1, alignment);
    assert(alignment * q == q * alignment) by (nonlinear_arith);
    lemma_mod_multiples_basic(q, alignment);
    assert forall|m: int| value <= m && #[trigger] (m % alignment) == 0 implies r <= m by {
        lemma_fundamental_div_mod(m, alignment);
        let k: int = m / alignment;
        assert(q <= k) by (nonlinear_arith)
            requires
                m == alignment * k,
                alignment * q < m + alignment,
                0 < alignment,
        ;
        assert(q * alignment <= alignment * k) by (nonlinear_arith)
            requires
                q <= k,
                0 < alignment,
        ;
    }
}

/// The next alignment boundary, if it is not beyond the largest number.
fn next_boundary(value: usize, alignment: usize) -> (r: Option<usize>)
    ensures
        match r {
            Some(boundary) => boundary == aligned(value as int, alignment as int),
            None => aligned(value as int, alignment as int) > usize::MAX,
        },
{
    if alignment == 0 {
        return Some(value);
    }
    proof {
        let v: int = value as int;
        let a: int = alignment as int;
        let q: int = v / a;
        lemma_fundamental_div_mod(v, a);
        assert(a * q == q * a && (q + 1) * a == q * a + a) by (nonlinear_arith);
        if v % a == 0 {
            lemma_fundamental_div_mod_converse(v + a - 1, a, q, a - 1);
        } else {
            lemma_fundamental_div_mod_converse(v + a - 1, a, q + 1, v % a - 1);
            assert(q < v) by (nonlinear_arith)
                requires
                    q * a < v,
                    0 < a,
                    0 <= v,
            ;
        }
    }
    let whole: usize = value / alignment;
    let boundaries: usize = if value % alignment == 0 {
        whole
    } else {
        whole + 1
    };
    boundaries.checked_mul(alignment)
}

/// Align a value up to the given alignment boundary.
pub fn align_up(value: usize, alignment: usize) -> (r: usize)
    requires
        aligned(value as int, alignment as int) <= usize::MAX,
    ensures
        r == aligned(value as int, alignment as int),
        alignment > 0 ==> r as int % alignment as int == 0 && value <= r < value + alignment,
{
    proof {
        if alignment > 0 {
            aligned_is_least_multiple(value as int, alignment as int);
        }
    }
    match next_boundary(value, alignment) {
        Some(boundary) => boundary,
        None => value,
    }
}

/// The alignment that the metadata asks for, or the default.
pub open spec fn alignment_in(metadata: Map<Seq<char>, MetaValue>) -> int {
    match lookup(metadata, "general.alignment"@) {
        Some(MetaValue::Uint32(v)) => v as int,
        _ => DEFAULT_ALIGNMENT as int,
    }
}

/// A parsed GGUF file with the bytes that it was read from.
pub struct GgufFile {
    /// File contents.
    pub mmap: Vec<u8>,
    /// GGUF format version (2 or 3).
    pub version: u32,
    /// Parsed metadata.
    pub metadata: GgufMetadata,
    /// Tensor info array.
    pub tensors: Vec<GgufTensorInfo>,
    /// Byte offset where tensor data begins.
    pub data_offset: usize,
    /// Detected model architecture.
    pub architecture: ModelArchitecture,
}

/// Where the first of the tensors called `name` stands; the number of tensors if there is none.
pub open spec fn first_named(tensors: Seq<TensorModel>, name: Seq<char>) -> int
    decreases tensors.len(),
{
    if tensors.len() == 0 || tensors[0].name == name {
        0
    } else {
        1 + first_named(tensors.drop_first(), name)
    }
}

impl GgufFile {
    /// The bytes of the file.
    pub open spec fn contents(self) -> Seq<u8> {
        self.mmap@
    }

    /// Whether this is the file with the given header, which ends at `header_end`.
    pub open spec fn has_header(self, header: HeaderModel, header_end: int) -> bool {
        &&& self.version == header.version
        &&& self.metadata@ == entries_map(header.entries)
        &&& tensor_models(self.tensors@) == header.tensors
        &&& self.data_offset == aligned(header_end, alignment_in(self.metadata@))
        &&& self.architecture == detected(self.metadata@, names_of(self.tensors@))
    }

    /// What parsing `data` gives: the header's own error, or the file. A header so close to the
    /// end of the address space that no data section could be aligned behind it is an
    /// unexpected end of data.
    pub open spec fn parses(data: Seq<u8>, r: Result<GgufFile, GgufError>) -> bool {
        match header_of(data) {
            Err(stop) => r == Err::<GgufFile, GgufError>(stop.error),
            Ok((header, end)) => if aligned(end, alignment_in(entries_map(header.entries)))
                <= usize::MAX {
                r matches Ok(file) && file.contents() == data && file.has_header(header, end)
            } else {
                r == Err::<GgufFile, GgufError>(GgufError::UnexpectedEof(end as usize))
            },
        }
    }

    /// Whether `r` is owed for `data`, as far as these are the beginning of a longer file: if the
    /// header of that file is cut, the data end unexpectedly, no later than at the cut.
    pub open spec fn refuses_cut_header(data: Seq<u8>, r: Result<GgufFile, GgufError>) -> bool {
        forall|whole: Seq<u8>|
            (#[trigger] header_of(whole) matches Ok((header, end)) && data.len() < end && data
                == whole.take(data.len() as int)) ==> (r matches Err(GgufError::UnexpectedEof(p))
                && p <= data.len())
    }

    /// Parse a GGUF file from raw bytes.
    pub fn from_bytes(data: Vec<u8>) -> (r: Result<GgufFile, GgufError>)
        ensures
            Self::parses(data@, r),
            Self::refuses_cut_header(data@, r),
    {
        Self::parse(data)
    }

    fn parse(mmap: Vec<u8>) -> (r: Result<GgufFile, GgufError>)
        ensures
            Self::parses(mmap@, r),
            Self::refuses_cut_header(mmap@, r),
    {
        proof {
            assert forall|whole: Seq<u8>|
                #[trigger] header_of(whole) matches Ok((header, end)) && mmap@.len() < end && mmap@
                    == whole.take(mmap@.len() as int) implies ran_out(
                header_of(mmap@),
                mmap@.len() as int,
            ) by {
                cut_header_runs_out(whole, mmap@.len() as int);
            }
        }
        let mut reader: Reader = Reader::new(mmap.as_slice());

        // Header
        let magic: u32 = match reader.read_u32() {
            Err(e) => {
                return Err(e);
            },
            Ok(magic) => magic,
        };
        if magic != GGUF_MAGIC {
            return Err(GgufError::BadMagic(magic));
        }
        let version: u32 = match reader.read_u32() {
            Err(e) => {
                return Err(e);
            },
            Ok(version) => version,
        };
        if version != 2 && version != 3 {
            return Err(GgufError::UnsupportedVersion(version));
        }
        let tensor_count: u64 = match reader.read_u64() {
            Err(e) => {
                return Err(e);
            },
            Ok(n) => n,
        };
        let metadata_kv_count: u64 = match reader.read_u64() {
            Err(e) => {
                return Err(e);
            },
            Ok(n) => n,
        };

        // Metadata key-value pairs
        let entries: Vec<(String, GgufMetadataValue)> = match reader.read_entries(
            metadata_kv_count as usize,
        ) {
            Err(e) => {
                return Err(e);
            },
            Ok(entries) => entries,
        };
        let metadata: GgufMetadata = GgufMetadata::new(entries);
        let alignment: usize = match metadata.get_u32("general.alignment") {
            Some(v) => v as usize,
            None => DEFAULT_ALIGNMENT,
        };

        // Tensor descriptions
        let tensors: Vec<GgufTensorInfo> = match reader.read_tensors(tensor_count as usize) {
            Err(e) => {
                return Err(e);
            },
            Ok(tensors) => tensors,
        };

        // The data section starts at the next alignment boundary
        let header_end: usize = reader.pos;
        let data_offset: usize = match next_boundary(header_end, alignment) {
            None => {
                return Err(GgufError::UnexpectedEof(header_end));
            },
            Some(data_offset) => data_offset,
        };
        let architecture: ModelArchitecture = detect_architecture(&metadata, tensors.as_slice());
        Ok(GgufFile { mmap, version, metadata, tensors, data_offset, architecture })
    }

    /// Get the raw bytes of the file.
    pub fn mmap_bytes(&self) -> (r: &[u8])
        ensures
            r@ == self.contents(),
    {
        self.mmap.as_slice()
    }

    /// Get tensor data bytes for a specific tensor.
    pub fn tensor_data(&self, tensor: &GgufTensorInfo) -> (r: &[u8])
        requires
            tensor.in_bounds(self.contents().len(), self.data_offset as nat),
        ensures
            r@ == self.contents().subrange(
                self.data_offset + tensor.offset_in_data as usize,
                self.data_offset + tensor.offset_in_data as usize + data_size(
                    tensor.shape@,
                    tensor.gguf_type,
                ),
            ),
    {
        tensor.data(self.mmap.as_slice(), self.data_offset)
    }

    /// Find a tensor by name: the first one, where several have it.
    pub fn find_tensor(&self, name: &str) -> (r: Option<&GgufTensorInfo>)
        ensures
            ({
                let at = first_named(tensor_models(self.tensors@), name@);
                &&& r is Some <==> at < self.tensors.len()
                &&& r matches Some(t) ==> *t == self.tensors@[at]
            }),
    {
        let ghost models: Seq<TensorModel> = tensor_models(self.tensors@);
        let mut i: usize = 0;
        assert(models.skip(0) =~= models);
        while i < self.tensors.len()
            invariant
                i <= self.tensors.len(),
                models == tensor_models(self.tensors@),
                first_named(models, name@) == i + first_named(models.skip(i as int), name@),
            decreases self.tensors.len() - i,
        {
            if same_text(self.tensors[i].name.as_str(), name) {
                return Some(&self.tensors[i]);
            }
            assert(models.skip(i as int).drop_first() =~= models.skip(i + 1));
            i = i + 1;
        }
        None
    }
}

/// A file that is cut anywhere inside its header does not parse: its data end unexpectedly, no
/// later than at the cut.
pub proof fn cut_file_is_refused(data: Seq<u8>, cut: int, r: Result<GgufFile, GgufError>)
    requires
        header_of(data) matches Ok((header, end)) && 0 <= cut < end,
        GgufFile::parses(data.take(cut), r),
    ensures
        r matches Err(GgufError::UnexpectedEof(p)) && p <= cut,
{
    cut_header_runs_out(data, cut);
}

} // verus!
