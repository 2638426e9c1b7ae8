//! Tensor descriptions and access to tensor data.

use super::quantize::GgufType;
use vstd::prelude::*;
use vstd::slice::slice_subrange;

verus! {

/// Information about a single tensor in a GGUF file.
#[derive(Debug)]
pub struct GgufTensorInfo {
    /// Tensor name (e.g. "blk.0.attn_q.weight").
    pub name: String,
    /// Number of dimensions.
    pub ndim: u32,
    /// Shape array (length = ndim).
    pub shape: Vec<u64>,
    /// Quantization / data type.
    pub gguf_type: GgufType,
    /// Byte offset of this tensor's data within the data section.
    pub offset_in_data: u64,
}

/// What a tensor description says, with text and shape as sequences.
#[verifier::ext_equal]
pub struct TensorModel {
    pub name: Seq<char>,
    pub ndim: u32,
    pub shape: Seq<u64>,
    pub gguf_type: GgufType,
    pub offset_in_data: u64,
}

/// The product of all dimensions; 1 for no dimensions.
pub open spec fn dims_product(shape: Seq<u64>) -> nat
    decreases shape.len(),
{
    if shape.len() == 0 {
        1
    } else {
        dims_product(shape.drop_last()) * shape.last() as nat
    }
}

/// Whether the dimensions can be multiplied one after another in 64 bits.
pub open spec fn dims_fit(shape: Seq<u64>) -> bool {
    forall|k: int| 0 <= k <= shape.len() ==> dims_product(#[trigger] shape.take(k)) <= u64::MAX
}

/// Number of elements in a tensor of this shape: never less than one.
pub open spec fn element_count(shape: Seq<u64>) -> nat {
    if dims_product(shape) == 0 {
        1
    } else {
        dims_product(shape)
    }
}

/// Bytes of data in a tensor of this shape and type.
pub open spec fn data_size(shape: Seq<u64>, t: GgufType) -> nat {
    t.bytes_for((element_count(shape) as u64 as usize) as nat)
}

/// The product of the dimensions, from the first to the last.
pub fn multiply_dims(shape: &[u64]) -> (r: u64)
    requires
        dims_fit(shape@),
    ensures
        r == dims_product(shape@),
{
    let mut product: u64 = 1;
    let mut i: usize = 0;
    while i < shape.len()
        invariant
            dims_fit(shape@),
            i <= shape.len(),
            product == dims_product(shape@.take(i as int)),
        decreases shape.len() - i,
    {
        proof {
            assert(shape@.take(i + 1).drop_last() =~= shape@.take(i as int));
            assert(dims_product(shape@.take(i + 1)) <= u64::MAX);
        }
        product = product * shape[i];
        i = i + 1;
    }
    assert(shape@.take(shape@.len() as int) =~= shape@);
    product
}

/// What a list of tensor descriptions says.
pub open spec fn tensor_models(tensors: Seq<GgufTensorInfo>) -> Seq<TensorModel> {
    tensors.map_values(|t: GgufTensorInfo| t.model())
}

impl Clone for GgufTensorInfo {
    fn clone(&self) -> (r: GgufTensorInfo)
        ensures
            r.model() == self.model(),
    {
        let r: GgufTensorInfo = GgufTensorInfo {
            name: self.name.clone(),
            ndim: self.ndim,
            shape: self.shape.clone(),
            gguf_type: self.gguf_type,
            offset_in_data: self.offset_in_data,
        };
        assert(r.shape@ =~= self.shape@);
        r
    }
}

impl GgufTensorInfo {
    /// What this description says.
    pub open spec fn model(self) -> TensorModel {
        TensorModel {
            name: self.name@,
            ndim: self.ndim,
            shape: self.shape@,
            gguf_type: self.gguf_type,
            offset_in_data: self.offset_in_data,
        }
    }

    /// Total number of elements in this tensor.
    pub fn n_elements(&self) -> (r: u64)
        requires
            dims_fit(self.shape@),
        ensures
            r == element_count(self.shape@),
    {
        let product: u64 = multiply_dims(self.shape.as_slice());
        if product < 1 {
            1
        } else {
            product
        }
    }

    /// Total byte size of this tensor's data.
    pub fn byte_size(&self) -> (r: usize)
        requires
            dims_fit(self.shape@),
            data_size(self.shape@, self.gguf_type) <= usize::MAX,
        ensures
            r == data_size(self.shape@, self.gguf_type),
    {
        self.gguf_type.tensor_byte_size(self.n_elements() as usize)
    }

    /// Whether this tensor's data lies inside a file of `file_len` bytes whose data section
    /// starts at `data_offset`.
    pub open spec fn in_bounds(self, file_len: nat, data_offset: nat) -> bool {
        &&& dims_fit(self.shape@)
        &&& data_offset + self.offset_in_data as usize + data_size(self.shape@, self.gguf_type)
            <= file_len
    }

    /// Check whether this tensor's data lies inside a file.
    pub fn lies_within(&self, file_len: usize, data_offset: usize) -> (r: bool)
        ensures
            r == self.in_bounds(file_len as nat, data_offset as nat),
    {
        let mut product: u64 = 1;
        let mut i: usize = 0;
        assert(self.shape@.take(0) =~= Seq::empty());
        while i < self.shape.len()
            invariant
                i <= self.shape.len(),
                product == dims_product(self.shape@.take(i as int)),
                forall|k: int|
                    0 <= k <= i ==> dims_product(#[trigger] self.shape@.take(k)) <= u64::MAX,
            decreases self.shape.len() - i,
        {
            let ghost next: Seq<u64> = self.shape@.take(i + 1);
            assert(next.drop_last() =~= self.shape@.take(i as int));
            assert(next.last() == self.shape@[i as int]);
            match product.checked_mul(self.shape[i]) {
                None => {
                    return false;
                },
                Some(p) => {
                    product = p;
                },
            }
            i = i + 1;
        }
        assert(self.shape@.take(i as int) =~= self.shape@);
        let elements: usize = if product < 1 {
            1
        } else {
            product as usize
        };
        let per_block: usize = self.gguf_type.block_size();
        assert(elements % per_block != 0 ==> elements / per_block < elements) by (nonlinear_arith)
            requires
                per_block > 0,
        ;
        let blocks: usize = elements / per_block + if elements % per_block == 0 {
            0
        } else {
            1
        };
        proof {
            let n: int = elements as int;
            let b: int = per_block as int;
            assert((n + b - 1) / b == n / b + if n % b == 0 {
                0int
            } else {
                1
            }) by (nonlinear_arith)
                requires
                    n >= 0,
                    b > 0,
            ;
        }
        let size: usize = match blocks.checked_mul(self.gguf_type.bytes_per_block()) {
            None => {
                return false;
            },
            Some(size) => size,
        };
        match data_offset.checked_add(self.offset_in_data as usize) {
            None => false,
            Some(start) => match start.checked_add(size) {
                None => false,
                Some(end) => end <= file_len,
            },
        }
    }

    /// Get a byte slice of this tensor's raw data from the mapped file.
    ///
    /// - `mmap`: the full file contents
    /// - `data_offset`: byte offset where the data section starts in the file
    pub fn data<'a>(&self, mmap: &'a [u8], data_offset: usize) -> (r: &'a [u8])
        requires
            self.in_bounds(mmap.len() as nat, data_offset as nat),
        ensures
            r@ == mmap@.subrange(
                data_offset + self.offset_in_data as usize,
                data_offset + self.offset_in_data as usize + data_size(
                    self.shape@,
                    self.gguf_type,
                ),
            ),
    {
        let start: usize = data_offset + self.offset_in_data as usize;
        let end: usize = start + self.byte_size();
        slice_subrange(mmap, start, end)
    }
}

} // verus!
