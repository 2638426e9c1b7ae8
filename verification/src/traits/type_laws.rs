//! How views of tensors are laid out and counted.

use super::attention::PositionEncoding;
use super::types::{row_major, tail_product, DType, TensorView};
use crate::float_laws::{is_number, number, numbers_are_ranked};
use vstd::prelude::*;

verus! {

/// A new view starts at the front, has the shape and type that it is given, and passes over all
/// elements of the later dimensions with each step: the last stride is 1, and each other one is the
/// next stride times the next dimension.
pub proof fn new_views_are_row_major(shape: Vec<usize>, dtype: DType, r: TensorView, i: int)
    requires
        call_ensures(TensorView::new, (shape, dtype), r),
        0 <= i < shape@.len(),
    ensures
        r.offset == 0,
        r.shape@ == shape@,
        r.dtype == dtype,
        r.strides@.len() == shape@.len(),
        i == shape@.len() - 1 ==> r.strides@[i] == 1,
        i < shape@.len() - 1 ==> r.strides@[i] == r.strides@[i + 1] * shape@[i + 1],
{
    let strides: Seq<nat> = r.strides@.map_values(|s: usize| s as nat);
    assert(strides.len() == r.strides@.len());
    assert(strides == row_major(shape@));
    assert(strides[i] == r.strides@[i]);
    assert(strides[i] == tail_product(shape@, i + 1));
    if i < shape@.len() - 1 {
        assert(strides[i + 1] == r.strides@[i + 1]);
        assert(strides[i + 1] == tail_product(shape@, i + 2));
        assert(shape@[i + 1] as nat * tail_product(shape@, i + 2) == r.strides@[i + 1] * shape@[i
            + 1]) by (nonlinear_arith)
            requires
                r.strides@[i + 1] == tail_product(shape@, i + 2),
        ;
    }
}

/// A view with everything given has what it is given.
pub proof fn given_views_are_kept(
    offset: usize,
    shape: Vec<usize>,
    strides: Vec<usize>,
    dtype: DType,
    r: TensorView,
    dims: usize,
)
    requires
        call_ensures(TensorView::with_offset, (offset, shape, strides, dtype), r),
        call_ensures(TensorView::ndim, (&r,), dims),
    ensures
        r.offset == offset,
        r.shape@ == shape@,
        r.strides@ == strides@,
        r.dtype == dtype,
        dims == shape@.len(),
{
}

/// A view without dimensions has one element, and one dimension more multiplies the elements.
pub proof fn dimensions_multiply_elements(
    view: TensorView,
    elements: usize,
    longer: TensorView,
    more: usize,
    d: usize,
)
    requires
        call_ensures(TensorView::num_elements, (&view,), elements),
        call_ensures(TensorView::num_elements, (&longer,), more),
        longer.shape@ == view.shape@.push(d),
    ensures
        view.shape@.len() == 0 ==> elements == 1,
        more == elements * d,
{
    assert(longer.shape@.drop_last() =~= view.shape@);
}

/// A view takes the bytes of its elements: four for 32-bit floats, two for 16-bit ones, and one for
/// a quantized element.
pub proof fn views_take_the_bytes_of_their_elements(
    view: TensorView,
    elements: usize,
    element_bytes: usize,
    bytes: usize,
)
    requires
        call_ensures(TensorView::num_elements, (&view,), elements),
        call_ensures(DType::size_bytes, (&view.dtype,), element_bytes),
        call_ensures(TensorView::size_bytes, (&view,), bytes),
    ensures
        bytes == elements * element_bytes,
        element_bytes == 4 <==> view.dtype == DType::F32,
        element_bytes == 2 <==> view.dtype == DType::F16 || view.dtype == DType::BF16,
        element_bytes == 1 <==> view.dtype == DType::Q4_0 || view.dtype == DType::Q4_K_M
            || view.dtype == DType::Q8_0,
{
}

/// Two position encodings are equal exactly where they are of the same kind and, for rotary ones,
/// have the same number as their base.
pub proof fn equal_encodings_are_of_a_kind(a: PositionEncoding, b: PositionEncoding, r: bool)
    requires
        call_ensures(PositionEncoding::eq, (&a, &b), r),
    ensures
        a is NoEncoding ==> (r <==> b is NoEncoding),
        a is ALiBi ==> (r <==> b is ALiBi),
        a matches PositionEncoding::RoPE { theta_base: x } ==> (r
            <==> (b matches PositionEncoding::RoPE { theta_base: y } && is_number(x) && is_number(y)
            && number(x) == number(y))),
{
    if let PositionEncoding::RoPE { theta_base: x } = a {
        if let PositionEncoding::RoPE { theta_base: y } = b {
            numbers_are_ranked(x, y);
        }
    }
}

} // verus!
