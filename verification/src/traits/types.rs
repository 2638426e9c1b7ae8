//! Core types shared across the trait hierarchy.

use vstd::prelude::*;

verus! {

/// Tensor descriptor for inference. Does not own data -- references device buffers.
#[derive(Debug)]
pub struct TensorView {
    /// Byte offset into the backing buffer.
    pub offset: usize,
    /// Shape in elements (e.g., [seq_len, head_dim]).
    pub shape: Vec<usize>,
    /// Element stride per dimension.
    pub strides: Vec<usize>,
    /// Element data type.
    pub dtype: DType,
}

/// The product of the dimensions from `i` on.
pub open spec fn tail_product(shape: Seq<usize>, i: int) -> nat
    decreases shape.len() - i,
{
    if i >= shape.len() || i < 0 {
        1
    } else {
        shape[i] as nat * tail_product(shape, i + 1)
    }
}

/// The product of all dimensions; 1 for no dimensions.
pub open spec fn product(shape: Seq<usize>) -> nat
    decreases shape.len(),
{
    if shape.len() == 0 {
        1
    } else {
        product(shape.drop_last()) * shape.last() as nat
    }
}

/// Whether the dimensions can be multiplied one after another.
pub open spec fn product_fits(shape: Seq<usize>) -> bool {
    forall|k: int| 0 <= k <= shape.len() ==> product(#[trigger] shape.take(k)) <= usize::MAX
}

/// Row-major strides: a step in one dimension passes over all elements of the later ones.
pub open spec fn row_major(shape: Seq<usize>) -> Seq<nat> {
    Seq::new(shape.len(), |i: int| tail_product(shape, i + 1))
}

/// Whether the row-major strides can be computed.
pub open spec fn strides_fit(shape: Seq<usize>) -> bool {
    forall|i: int| 0 <= i < shape.len() ==> #[trigger] row_major(shape)[i] <= usize::MAX
}

/// Where the element with the given index stands, counted in elements.
pub open spec fn element_offset(index: Seq<nat>, strides: Seq<nat>) -> nat
    decreases index.len(),
{
    if index.len() == 0 || strides.len() == 0 {
        0
    } else {
        index[0] * strides[0] + element_offset(index.drop_first(), strides.drop_first())
    }
}

impl Clone for TensorView {
    fn clone(&self) -> (r: TensorView)
        ensures
            r.offset == self.offset,
            r.shape@ == self.shape@,
            r.strides@ == self.strides@,
            r.dtype == self.dtype,
    {
        let shape: Vec<usize> = self.shape.clone();
        let strides: Vec<usize> = self.strides.clone();
        assert(shape@ =~= self.shape@);
        assert(strides@ =~= self.strides@);
        TensorView { offset: self.offset, shape, strides, dtype: self.dtype }
    }
}

impl TensorView {
    /// Whether this is a contiguous row-major view of the given shape, at the buffer's start.
    pub open spec fn is_contiguous(self, shape: Seq<usize>, dtype: DType) -> bool {
        &&& self.offset == 0
        &&& self.shape@ == shape
        &&& self.strides@.map_values(|s: usize| s as nat) == row_major(shape)
        &&& self.dtype == dtype
    }

    /// Create a new TensorView with the given shape and dtype.
    /// Strides are computed assuming contiguous row-major layout.
    pub fn new(shape: Vec<usize>, dtype: DType) -> (r: TensorView)
        requires
            strides_fit(shape@),
        ensures
            r.is_contiguous(shape@, dtype),
    {
        let strides: Vec<usize> = Self::compute_strides(shape.as_slice());
        TensorView { offset: 0, shape, strides, dtype }
    }

    /// Create a new TensorView with explicit offset, shape, strides, and dtype.
    pub fn with_offset(offset: usize, shape: Vec<usize>, strides: Vec<usize>, dtype: DType) -> (r:
        TensorView)
        ensures
            r.offset == offset,
            r.shape@ == shape@,
            r.strides@ == strides@,
            r.dtype == dtype,
    {
        TensorView { offset, shape, strides, dtype }
    }

    /// Compute contiguous row-major strides for a given shape.
    fn compute_strides(shape: &[usize]) -> (r: Vec<usize>)
        requires
            strides_fit(shape@),
        ensures
            r@.map_values(|s: usize| s as nat) == row_major(shape@),
    {
        let n: usize = shape.len();
        let mut strides: Vec<usize> = vec![1usize; n];
        if n > 0 {
            let mut i: usize = n - 1;
            while i > 0
                invariant
                    n == shape.len(),
                    strides.len() == n,
                    i < n,
                    strides_fit(shape@),
                    forall|k: int|
                        i <= k < n ==> #[trigger] strides@[k] == tail_product(shape@, k + 1),
                decreases i,
            {
                i = i - 1;
                assert(strides@[i + 1] == tail_product(shape@, i + 2));
                assert(row_major(shape@)[i as int] == tail_product(shape@, i + 1));
                assert(shape@[i + 1] as nat * tail_product(shape@, i + 2) == strides@[i + 1]
                    * shape@[i + 1]) by (nonlinear_arith)
                    requires
                        strides@[i + 1] == tail_product(shape@, i + 2),
                ;
                strides[i] = strides[i + 1] * shape[i + 1];
            }
        }
        assert(strides@.map_values(|s: usize| s as nat) =~= row_major(shape@));
        strides
    }

    /// Total number of elements in this tensor.
    pub fn num_elements(&self) -> (r: usize)
        requires
            product_fits(self.shape@),
        ensures
            r == product(self.shape@),
    {
        let mut n: usize = 1;
        let mut i: usize = 0;
        while i < self.shape.len()
            invariant
                product_fits(self.shape@),
                i <= self.shape.len(),
                n == product(self.shape@.take(i as int)),
            decreases self.shape.len() - i,
        {
            proof {
                assert(self.shape@.take(i + 1).drop_last() =~= self.shape@.take(i as int));
                assert(product(self.shape@.take(i + 1)) <= usize::MAX);
            }
            n = n * self.shape[i];
            i = i + 1;
        }
        assert(self.shape@.take(i as int) =~= self.shape@);
        n
    }

    /// Total size in bytes based on dtype and element count.
    pub fn size_bytes(&self) -> (r: usize)
        requires
            product_fits(self.shape@),
            product(self.shape@) * self.dtype.element_bytes() <= usize::MAX,
        ensures
            r == product(self.shape@) * self.dtype.element_bytes(),
    {
        self.num_elements() * self.dtype.size_bytes()
    }

    /// Number of dimensions.
    pub fn ndim(&self) -> (r: usize)
        ensures
            r == self.shape@.len(),
    {
        self.shape.len()
    }
}

/// Data types supported by the engine.
#[derive(Debug, Clone, Copy, PartialEq, Eq, Structural)]
#[allow(non_camel_case_types)]
pub enum DType {
    F32,
    F16,
    BF16,
    Q4_0,
    Q4_K_M,
    Q8_0,
}

impl DType {
    /// Bytes that one element is counted as. Quantized elements take less than a byte or little
    /// more, and count as one.
    pub open spec fn element_bytes(self) -> nat {
        match self {
            DType::F32 => 4,
            DType::F16 => 2,
            DType::BF16 => 2,
            DType::Q4_0 => 1,
            DType::Q4_K_M => 1,
            DType::Q8_0 => 1,
        }
    }

    /// Size of a single element in bytes; 1 for the quantized types.
    pub fn size_bytes(&self) -> (r: usize)
        ensures
            r == self.element_bytes(),
    {
        match self {
            DType::F32 => 4,
            DType::F16 => 2,
            DType::BF16 => 2,
            DType::Q4_0 => 1,
            DType::Q4_K_M => 1,
            DType::Q8_0 => 1,
        }
    }
}

/// Configuration for a single sequence block within a layer.
#[derive(Debug, Clone, Copy)]
pub struct BlockConfig {
    pub hidden_size: usize,
    pub head_dim: usize,
    pub num_heads: usize,
    pub num_kv_heads: usize,
    pub layer_index: usize,
}

/// Multiplying from the front and from the back gives the same product.
pub proof fn product_both_ways(shape: Seq<usize>)
    ensures
        product(shape) == tail_product(shape, 0),
{
    product_splits(shape, 0);
    assert(shape.take(0) =~= Seq::<usize>::empty());
    assert(product(shape.take(0)) * tail_product(shape, 0) == tail_product(shape, 0))
        by (nonlinear_arith)
        requires
            product(shape.take(0)) == 1,
    ;
}

proof fn product_splits(shape: Seq<usize>, i: int)
    requires
        0 <= i <= shape.len(),
    ensures
        product(shape.take(i)) * tail_product(shape, i) == product(shape),
    decreases shape.len() - i,
{
    if i == shape.len() {
        assert(shape.take(i) =~= shape);
        assert(product(shape) * 1 == product(shape)) by (nonlinear_arith);
    } else {
        product_splits(shape, i + 1);
        assert(shape.take(i + 1).drop_last() =~= shape.take(i));
        let a: nat = product(shape.take(i));
        let b: nat = shape[i] as nat;
        let c: nat = tail_product(shape, i + 1);
        assert(a * (b * c) == (a * b) * c) by (nonlinear_arith);
    }
}

/// In a contiguous tensor the last element of a non-empty shape stands directly in front of the
/// end: no element lies outside, and none is missing at the end.
pub proof fn contiguous_span(shape: Seq<usize>, from: int)
    requires
        0 <= from <= shape.len(),
        forall|i: int| 0 <= i < shape.len() ==> #[trigger] shape[i] > 0,
    ensures
        element_offset(
            shape.skip(from).map_values(|d: usize| (d - 1) as nat),
            row_major(shape).skip(from),
        ) + 1 == tail_product(shape, from),
    decreases shape.len() - from,
{
    let index: Seq<nat> = shape.skip(from).map_values(|d: usize| (d - 1) as nat);
    let strides: Seq<nat> = row_major(shape).skip(from);
    if from < shape.len() {
        contiguous_span(shape, from + 1);
        assert(index.drop_first() =~= shape.skip(from + 1).map_values(|d: usize| (d - 1) as nat));
        assert(strides.drop_first() =~= row_major(shape).skip(from + 1));
        let d: int = shape[from] as int;
        let t: int = tail_product(shape, from + 1) as int;
        assert((d - 1) * t + t == d * t) by (nonlinear_arith);
    }
}

} // verus!
