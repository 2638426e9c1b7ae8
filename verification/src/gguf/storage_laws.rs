//! How the element types are stored.

use super::parser::GgufFile;
use super::quantize::{type_id_is_faithful, type_id_round_trip, GgufType};
use super::tensor::{dims_fit, dims_product, multiply_dims, GgufTensorInfo};
use vstd::arithmetic::div_mod::{lemma_fundamental_div_mod, lemma_fundamental_div_mod_converse};
use vstd::prelude::*;

verus! {

/// Bits in one number of a type that is not quantized: floats, "brain" floats and integers have as
/// many as they are called by.
pub open spec fn plain_bits(t: GgufType) -> Option<nat> {
    match t {
        GgufType::I8 => Some(8),
        GgufType::F16 | GgufType::BF16 | GgufType::I16 => Some(16),
        GgufType::F32 | GgufType::I32 => Some(32),
        GgufType::F64 | GgufType::I64 => Some(64),
        _ => None,
    }
}

/// What a quantized block is made of, in bits.
pub struct BlockLayout {
    /// Elements in the block.
    pub elements: nat,
    /// Bits of the block's own scale, and of its minimum or sum if it has one.
    pub header: nat,
    /// Low bits of each element.
    pub low: nat,
    /// High bits of each element that are stored apart.
    pub high: nat,
    /// Bits of the scales, minimums or sums of parts of the block.
    pub parts: nat,
}

impl BlockLayout {
    /// All bits of the block.
    pub open spec fn bits(self) -> nat {
        self.header + self.elements * (self.low + self.high) + self.parts
    }
}

/// The layout of a quantized type: small blocks of 32 elements with 16-bit headers, and large ones
/// of 256 elements in 16 parts of 16 or 8 parts of 32.
pub open spec fn block_layout(t: GgufType) -> Option<BlockLayout> {
    let small = BlockLayout { elements: 32, header: 16, low: 4, high: 0, parts: 0 };
    let large = BlockLayout { elements: 256, header: 16, low: 4, high: 0, parts: 0 };
    match t {
        GgufType::Q4_0 => Some(small),
        GgufType::Q4_1 => Some(BlockLayout { header: 2 * 16, ..small }),
        GgufType::Q5_0 => Some(BlockLayout { high: 1, ..small }),
        GgufType::Q5_1 => Some(BlockLayout { header: 2 * 16, high: 1, ..small }),
        GgufType::Q8_0 => Some(BlockLayout { low: 8, ..small }),
        GgufType::Q8_1 => Some(BlockLayout { header: 2 * 16, low: 8, ..small }),
        // 16 scales and minimums of 4 bits each
        GgufType::Q2_K => Some(
            BlockLayout { header: 2 * 16, low: 2, parts: 16 * (4 + 4), ..large },
        ),
        // 16 scales of 6 bits
        GgufType::Q3_K => Some(BlockLayout { low: 2, high: 1, parts: 16 * 6, ..large }),
        // 8 scales and minimums of 6 bits each
        GgufType::Q4_K => Some(BlockLayout { header: 2 * 16, parts: 8 * (6 + 6), ..large }),
        GgufType::Q5_K => Some(
            BlockLayout { header: 2 * 16, high: 1, parts: 8 * (6 + 6), ..large },
        ),
        // 16 scales of 8 bits
        GgufType::Q6_K => Some(BlockLayout { high: 2, parts: 16 * 8, ..large }),
        // 16 sums of 16 bits
        GgufType::Q8_K => Some(BlockLayout { header: 32, low: 8, parts: 16 * 16, ..large }),
        _ => None,
    }
}

/// Every type is either plain or quantized. A plain number takes its bits; a quantized block takes
/// the bits of its scales, of its elements and of the scales of its parts.
pub proof fn blocks_take_their_fields(t: GgufType, elements: usize, bytes: usize)
    requires
        call_ensures(GgufType::block_size, (&t,), elements),
        call_ensures(GgufType::bytes_per_block, (&t,), bytes),
    ensures
        plain_bits(t) is Some <==> block_layout(t) is None,
        plain_bits(t) matches Some(bits) ==> elements == 1 && 8 * bytes == bits,
        block_layout(t) matches Some(layout) ==> elements == layout.elements && 8 * bytes
            == layout.bits(),
{
    if let Some(layout) = block_layout(t) {
        let width: nat = layout.low + layout.high;
        assert(layout.elements * width == if layout.elements == 32 {
            32 * width
        } else {
            256 * width
        }) by (nonlinear_arith)
            requires
                layout.elements == 32 || layout.elements == 256,
        ;
    }
}

/// A tensor takes as many whole blocks as it needs for its elements, and no more.
pub proof fn tensors_take_whole_blocks(
    t: GgufType,
    n_elements: usize,
    size: usize,
    elements: usize,
    bytes: usize,
)
    requires
        call_ensures(GgufType::tensor_byte_size, (&t, n_elements), size),
        call_ensures(GgufType::block_size, (&t,), elements),
        call_ensures(GgufType::bytes_per_block, (&t,), bytes),
    ensures
        plain_bits(t) matches Some(bits) ==> 8 * size == n_elements * bits,
        size % bytes == 0,
        (size / bytes) * elements >= n_elements,
        n_elements > 0 ==> (size / bytes - 1) * elements < n_elements,
        n_elements == 0 ==> size == 0,
{
    let e: int = elements as int;
    let b: int = bytes as int;
    let n: int = n_elements as int;
    let blocks: int = (n + e - 1) / e;
    assert(size == blocks * b);
    lemma_fundamental_div_mod(n + e - 1, e);
    assert(blocks * b == b * blocks) by (nonlinear_arith);
    lemma_fundamental_div_mod_converse(size as int, b, blocks, 0);
    assert(e * blocks == blocks * e && (blocks - 1) * e == blocks * e - e) by (nonlinear_arith);
    if n == 0 {
        assert(blocks == 0) by (nonlinear_arith)
            requires
                blocks == (e - 1) / e,
                e > 0,
        ;
    }
    if plain_bits(t) is Some {
        assert(blocks == n) by (nonlinear_arith)
            requires
                blocks == (n + e - 1) / e,
                e == 1,
        ;
        assert(8 * (n * b) == n * (8 * b)) by (nonlinear_arith);
    }
}

/// A number in a file stands for this type and no other, and the types stand under these numbers.
pub proof fn types_have_their_numbers(v: u32, r: Option<GgufType>)
    requires
        call_ensures(GgufType::from_u32, (v,), r),
    ensures
        r == Some(GgufType::F32) <==> v == 0,
        r == Some(GgufType::F16) <==> v == 1,
        r == Some(GgufType::Q4_0) <==> v == 2,
        r == Some(GgufType::Q4_1) <==> v == 3,
        r == Some(GgufType::Q5_0) <==> v == 6,
        r == Some(GgufType::Q5_1) <==> v == 7,
        r == Some(GgufType::Q8_0) <==> v == 8,
        r == Some(GgufType::Q8_1) <==> v == 9,
        r == Some(GgufType::Q2_K) <==> v == 10,
        r == Some(GgufType::Q3_K) <==> v == 11,
        r == Some(GgufType::Q4_K) <==> v == 12,
        r == Some(GgufType::Q5_K) <==> v == 13,
        r == Some(GgufType::Q6_K) <==> v == 14,
        r == Some(GgufType::Q8_K) <==> v == 15,
        r == Some(GgufType::I8) <==> v == 24,
        r == Some(GgufType::I16) <==> v == 25,
        r == Some(GgufType::I32) <==> v == 26,
        r == Some(GgufType::I64) <==> v == 27,
        r == Some(GgufType::F64) <==> v == 28,
        r == Some(GgufType::BF16) <==> v == 30,
{
    if GgufType::is_id(v) {
        type_id_is_faithful(v);
    }
    type_id_round_trip(GgufType::F32);
    type_id_round_trip(GgufType::F16);
    type_id_round_trip(GgufType::Q4_0);
    type_id_round_trip(GgufType::Q4_1);
    type_id_round_trip(GgufType::Q5_0);
    type_id_round_trip(GgufType::Q5_1);
    type_id_round_trip(GgufType::Q8_0);
    type_id_round_trip(GgufType::Q8_1);
    type_id_round_trip(GgufType::Q2_K);
    type_id_round_trip(GgufType::Q3_K);
    type_id_round_trip(GgufType::Q4_K);
    type_id_round_trip(GgufType::Q5_K);
    type_id_round_trip(GgufType::Q6_K);
    type_id_round_trip(GgufType::Q8_K);
    type_id_round_trip(GgufType::I8);
    type_id_round_trip(GgufType::I16);
    type_id_round_trip(GgufType::I32);
    type_id_round_trip(GgufType::I64);
    type_id_round_trip(GgufType::F64);
    type_id_round_trip(GgufType::BF16);
}

/// A type has the number under which it is found.
pub proof fn numbers_lead_back(t: GgufType, v: u32, r: Option<GgufType>)
    requires
        call_ensures(GgufType::to_u32, (t,), v),
        call_ensures(GgufType::from_u32, (v,), r),
    ensures
        r == Some(t),
{
    type_id_round_trip(t);
}

/// A tensor of one, two or three dimensions has as many elements as their product, and one where
/// that is zero.
pub proof fn elements_are_the_product(t: &GgufTensorInfo, r: u64)
    requires
        call_ensures(GgufTensorInfo::n_elements, (t,), r),
    ensures
        t.shape@.len() == 0 ==> r == 1,
        t.shape@.len() == 1 && t.shape@[0] > 0 ==> r == t.shape@[0],
        t.shape@.len() == 2 && t.shape@[0] * t.shape@[1] > 0 ==> r == t.shape@[0] * t.shape@[1],
        t.shape@.len() == 3 && t.shape@[0] * t.shape@[1] * t.shape@[2] > 0 ==> r == t.shape@[0]
            * t.shape@[1] * t.shape@[2],
        (exists|i: int| 0 <= i < t.shape@.len() && #[trigger] t.shape@[i] == 0) ==> r == 1,
{
    let shape: Seq<u64> = t.shape@;
    if 1 <= shape.len() <= 3 {
        let first: Seq<u64> = shape.take(1);
        assert(first.drop_last() =~= Seq::empty());
        assert(dims_product(first.drop_last()) == 1);
        assert(dims_product(first) == shape[0]) by {
            assert(1 * (first.last() as nat) == shape[0]);
        }
        if shape.len() >= 2 {
            let second: Seq<u64> = shape.take(2);
            assert(second.drop_last() =~= first);
            assert(second.last() == shape[1]);
            assert(dims_product(second) == shape[0] * shape[1]);
            if shape.len() == 3 {
                assert(shape.drop_last() =~= second);
            } else {
                assert(shape =~= second);
            }
        } else {
            assert(shape =~= first);
        }
    }
    if exists|i: int| 0 <= i < shape.len() && #[trigger] shape[i] == 0 {
        let i: int = choose|i: int| 0 <= i < shape.len() && #[trigger] shape[i] == 0;
        zero_dimension(shape, i);
    }
}

proof fn zero_dimension(shape: Seq<u64>, i: int)
    requires
        0 <= i < shape.len(),
        shape[i] == 0,
    ensures
        dims_product(shape) == 0,
    decreases shape.len(),
{
    if i == shape.len() - 1 {
        assert(dims_product(shape.drop_last()) * 0 == 0) by (nonlinear_arith);
    } else {
        zero_dimension(shape.drop_last(), i);
        assert(0 * shape.last() as nat == 0) by (nonlinear_arith);
    }
}

/// One dimension more multiplies the elements.
pub proof fn a_dimension_multiplies_elements(
    t: &GgufTensorInfo,
    elements: u64,
    u: &GgufTensorInfo,
    more: u64,
    d: u64,
)
    requires
        call_ensures(GgufTensorInfo::n_elements, (t,), elements),
        call_ensures(GgufTensorInfo::n_elements, (u,), more),
        forall|i: int| 0 <= i < t.shape@.len() ==> #[trigger] t.shape@[i] > 0,
        d > 0,
        u.shape@ == t.shape@.push(d),
    ensures
        more == elements * d,
{
    let shape: Seq<u64> = t.shape@;
    no_zero_dimension(shape);
    assert(shape.push(d).drop_last() =~= shape);
    assert(dims_product(shape) * d > 0) by (nonlinear_arith)
        requires
            dims_product(shape) > 0,
            d > 0,
    ;
}

proof fn no_zero_dimension(shape: Seq<u64>)
    requires
        forall|i: int| 0 <= i < shape.len() ==> #[trigger] shape[i] > 0,
    ensures
        dims_product(shape) > 0,
    decreases shape.len(),
{
    if shape.len() > 0 {
        let front: Seq<u64> = shape.drop_last();
        assert forall|i: int| 0 <= i < front.len() implies #[trigger] front[i] > 0 by {
            assert(shape[i] > 0);
        }
        no_zero_dimension(front);
        assert(shape[shape.len() - 1] > 0);
        assert(dims_product(front) * shape.last() as nat > 0) by (nonlinear_arith)
            requires
                dims_product(front) > 0,
                shape.last() > 0,
        ;
    }
}

/// Each type is called what it is written as.
pub proof fn types_have_their_names(t: GgufType, r: &str)
    requires
        call_ensures(GgufType::name, (t,), r),
    ensures
        t == GgufType::F32 ==> r@ == "F32"@,
        t == GgufType::F16 ==> r@ == "F16"@,
        t == GgufType::Q4_0 ==> r@ == "Q4_0"@,
        t == GgufType::Q4_1 ==> r@ == "Q4_1"@,
        t == GgufType::Q5_0 ==> r@ == "Q5_0"@,
        t == GgufType::Q5_1 ==> r@ == "Q5_1"@,
        t == GgufType::Q8_0 ==> r@ == "Q8_0"@,
        t == GgufType::Q8_1 ==> r@ == "Q8_1"@,
        t == GgufType::Q2_K ==> r@ == "Q2_K"@,
        t == GgufType::Q3_K ==> r@ == "Q3_K"@,
        t == GgufType::Q4_K ==> r@ == "Q4_K"@,
        t == GgufType::Q5_K ==> r@ == "Q5_K"@,
        t == GgufType::Q6_K ==> r@ == "Q6_K"@,
        t == GgufType::Q8_K ==> r@ == "Q8_K"@,
        t == GgufType::I8 ==> r@ == "I8"@,
        t == GgufType::I16 ==> r@ == "I16"@,
        t == GgufType::I32 ==> r@ == "I32"@,
        t == GgufType::I64 ==> r@ == "I64"@,
        t == GgufType::F64 ==> r@ == "F64"@,
        t == GgufType::BF16 ==> r@ == "BF16"@,
{
}

/// A tensor's data are as many bytes as its elements take, from its offset in the data section on.
pub proof fn tensor_data_stand_at_their_offset(
    file: &GgufFile,
    tensor: &GgufTensorInfo,
    elements: u64,
    size: usize,
    r: &[u8],
    j: int,
)
    requires
        call_ensures(GgufFile::tensor_data, (file, tensor), r),
        call_ensures(GgufTensorInfo::n_elements, (tensor,), elements),
        elements <= usize::MAX,
        call_ensures(GgufType::tensor_byte_size, (&tensor.gguf_type, elements as usize), size),
        file.data_offset + tensor.offset_in_data as usize + size <= file.contents().len(),
        0 <= j < size,
    ensures
        r@.len() == size,
        r@[j] == file.contents()[file.data_offset + tensor.offset_in_data as usize + j],
{
}

/// A tensor lies in a file exactly if its elements can be counted and its last byte is in front of
/// the end of the file.
pub proof fn tensors_lie_in_front_of_the_end(
    tensor: &GgufTensorInfo,
    file_len: usize,
    data_offset: usize,
    r: bool,
    elements: u64,
    size: usize,
)
    requires
        call_ensures(GgufTensorInfo::lies_within, (tensor, file_len, data_offset), r),
        dims_fit(tensor.shape@),
        call_ensures(GgufTensorInfo::n_elements, (tensor,), elements),
        elements <= usize::MAX,
        call_ensures(GgufType::tensor_byte_size, (&tensor.gguf_type, elements as usize), size),
    ensures
        r <==> data_offset + tensor.offset_in_data as usize + size <= file_len,
{
}

/// A tensor whose elements cannot be counted lies in no file.
pub proof fn uncountable_tensors_lie_nowhere(
    tensor: &GgufTensorInfo,
    file_len: usize,
    data_offset: usize,
    r: bool,
)
    requires
        call_ensures(GgufTensorInfo::lies_within, (tensor, file_len, data_offset), r),
        tensor.shape@.len() == 2,
        tensor.shape@[0] * tensor.shape@[1] > u64::MAX,
    ensures
        !r,
{
    let shape: Seq<u64> = tensor.shape@;
    let first: Seq<u64> = shape.take(1);
    assert(first.drop_last() =~= Seq::empty());
    assert(dims_product(first.drop_last()) == 1);
    assert(dims_product(first) == shape[0]) by {
        assert(1 * (first.last() as nat) == shape[0]);
    }
    assert(shape.drop_last() =~= first);
    assert(shape.last() == shape[1]);
    assert(shape.take(2) =~= shape);
    assert(dims_product(shape) == shape[0] * shape[1]);
    assert(dims_product(shape.take(2)) > u64::MAX);
}

/// A tensor takes the bytes that its type takes for its elements, and its data are those bytes of
/// the file.
pub proof fn tensors_take_the_bytes_of_their_elements(
    tensor: &GgufTensorInfo,
    elements: u64,
    size: usize,
    bytes: usize,
    file: &[u8],
    data_offset: usize,
    data: &[u8],
    j: int,
)
    requires
        call_ensures(GgufTensorInfo::n_elements, (tensor,), elements),
        elements <= usize::MAX,
        call_ensures(GgufType::tensor_byte_size, (&tensor.gguf_type, elements as usize), size),
        call_ensures(GgufTensorInfo::byte_size, (tensor,), bytes),
        call_ensures(GgufTensorInfo::data, (tensor, file, data_offset), data),
        data_offset + tensor.offset_in_data as usize + size <= file@.len(),
        0 <= j < size,
    ensures
        bytes == size,
        data@.len() == size,
        data@[j] == file@[data_offset + tensor.offset_in_data as usize + j],
{
}

/// The product of no dimensions is 1, and one dimension more multiplies the product.
pub proof fn dimensions_are_multiplied(
    shape: &[u64],
    r: u64,
    longer: &[u64],
    d: u64,
    longer_r: u64,
)
    requires
        call_ensures(multiply_dims, (shape,), r),
        longer@ == shape@.push(d),
        call_ensures(multiply_dims, (longer,), longer_r),
    ensures
        shape@.len() == 0 ==> r == 1,
        longer_r == r * d,
{
    assert(longer@.drop_last() =~= shape@);
}

} // verus!
