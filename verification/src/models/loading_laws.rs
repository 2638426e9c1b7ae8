//! Which tensor of a model file each weight comes from.

use super::llama::{
    can_load_layer, dequant_tensor, full_blocks, has_tensor, layer_is_whole, layer_refusal, refusal,
    tensor_named, turned_into, weight_refusal, weight_suffix, LlamaLayer,
};
use super::registry::ModelConfig;
use crate::float_laws::{
    bytes_spell, exponent_field, four_bytes, fraction_field, half_units, two_bytes, units,
    wide_has_value,
};
use crate::gguf::architectures::layer_name;
use crate::gguf::parser::{first_named, GgufFile};
use crate::gguf::quantize::GgufType;
use crate::gguf::tensor::{data_size, element_count, tensor_models, GgufTensorInfo, TensorModel};
use crate::text::decimal;
use vstd::arithmetic::div_mod::lemma_fundamental_div_mod;
use vstd::arithmetic::power2::pow2;
use vstd::prelude::*;

verus! {

/// Whether tensor `i` is the first one with the given name.
pub open spec fn is_first_with_name(
    tensors: Seq<GgufTensorInfo>,
    name: Seq<char>,
    i: int,
) -> bool {
    &&& 0 <= i < tensors.len()
    &&& tensors[i].name@ == name
    &&& forall|j: int| 0 <= j < i ==> (#[trigger] tensors[j]).name@ != name
}

proof fn first_is_first(models: Seq<TensorModel>, name: Seq<char>)
    ensures
        0 <= first_named(models, name) <= models.len(),
        first_named(models, name) < models.len() ==> models[first_named(models, name)].name == name,
        forall|j: int|
            0 <= j < first_named(models, name) ==> (#[trigger] models[j]).name != name,
    decreases models.len(),
{
    if models.len() > 0 && models[0].name != name {
        let rest: Seq<TensorModel> = models.drop_first();
        first_is_first(rest, name);
        assert forall|j: int| 0 <= j < first_named(models, name) implies (#[trigger] models[j]).name
            != name by {
            if j > 0 {
                assert(rest[j - 1] == models[j]);
            }
        }
    }
}

proof fn found_tensor_is_first(file: GgufFile, name: Seq<char>)
    ensures
        has_tensor(file, name) ==> is_first_with_name(
            file.tensors@,
            name,
            first_named(tensor_models(file.tensors@), name),
        ),
        !has_tensor(file, name) ==> forall|j: int|
            0 <= j < file.tensors@.len() ==> (#[trigger] file.tensors@[j]).name@ != name,
{
    let models: Seq<TensorModel> = tensor_models(file.tensors@);
    first_is_first(models, name);
    assert forall|j: int| 0 <= j < models.len() implies #[trigger] models[j].name
        == file.tensors@[j].name@ by {}
    assert forall|j: int| 0 <= j < first_named(models, name) implies (#[trigger]
    file.tensors@[j]).name@ != name by {
        assert(models[j].name != name);
    }
}

proof fn first_one_is_found(file: GgufFile, name: Seq<char>, i: int)
    requires
        is_first_with_name(file.tensors@, name, i),
    ensures
        has_tensor(file, name),
        tensor_named(file, name) == file.tensors@[i],
        first_named(tensor_models(file.tensors@), name) == i,
{
    found_tensor_is_first(file, name);
    let at: int = first_named(tensor_models(file.tensors@), name);
    if has_tensor(file, name) {
        if at < i {
            assert(file.tensors@[at].name@ != name);
        }
        if i < at {
            assert(file.tensors@[i].name@ != name);
        }
    } else {
        assert(file.tensors@[i].name@ != name);
    }
}

/// A tensor is found by its name exactly if some tensor has it, and then the first one is.
pub proof fn tensors_are_found_by_name(
    file: GgufFile,
    name: &str,
    r: Option<&GgufTensorInfo>,
    i: int,
)
    requires
        call_ensures(GgufFile::find_tensor, (&file, name), r),
    ensures
        is_first_with_name(file.tensors@, name@, i) ==> r == Some(&file.tensors@[i]),
        r is None <==> forall|j: int|
            0 <= j < file.tensors@.len() ==> (#[trigger] file.tensors@[j]).name@ != name@,
{
    found_tensor_is_first(file, name@);
    if is_first_with_name(file.tensors@, name@, i) {
        first_one_is_found(file, name@, i);
    }
}

/// Whether `floats` are those of tensor `t` of a file: each of the four bytes at its place in the
/// data section, each of a 16-bit float widened, or what `dequantize` makes of the tensor and the
/// number of its full blocks of 32 elements.
pub open spec fn are_floats_of<F: Fn(&GgufTensorInfo, usize) -> Vec<u32>>(
    file: GgufFile,
    t: GgufTensorInfo,
    dequantize: Option<&F>,
    floats: Vec<u32>,
) -> bool {
    let start = file.data_offset + t.offset_in_data as usize;
    match t.gguf_type {
        GgufType::F32 => are_all_elements(t, floats@.len()) && forall|j: int|
            0 <= j < floats@.len() ==> #[trigger] floats@[j] == four_bytes(
                file.contents(),
                start + 4 * j,
            ),
        GgufType::F16 => are_all_elements(t, floats@.len()) && forall|j: int|
            0 <= j < floats@.len() ==> is_widened(
                two_bytes(file.contents(), start + 2 * j) as u16,
                #[trigger] floats@[j],
            ),
        GgufType::Q4_0 | GgufType::Q8_0 => dequantize matches Some(f) && exists|blocks: usize|
            call_ensures(*f, (&t, blocks), floats) && #[trigger] are_full_blocks(t, blocks),
        _ => false,
    }
}

/// Whether a 32-bit float is a 16-bit float widened: the same number, with the same sign.
pub open spec fn is_widened(half: u16, wide: u32) -> bool {
    &&& wide as nat / 0x8000_0000 == half as nat / 0x8000
    &&& (half as nat / 1024) % 32 < 31 ==> exponent_field(wide) < 255 && units(wide)
        == half_units(half) * pow2(125)
    &&& (half as nat / 1024) % 32 == 31 ==> exponent_field(wide) == 255 && (fraction_field(wide)
        == 0 <==> half as nat % 1024 == 0)
}

/// Whether a tensor has this many elements.
pub open spec fn are_all_elements(t: GgufTensorInfo, n: nat) -> bool {
    forall|elements: u64| #[trigger]
        call_ensures(GgufTensorInfo::n_elements, (&t,), elements) && elements <= usize::MAX ==> n
            == elements
}

/// Whether a tensor has this many full blocks of 32 elements.
pub open spec fn are_full_blocks(t: GgufTensorInfo, blocks: usize) -> bool {
    forall|elements: u64| #[trigger]
        call_ensures(GgufTensorInfo::n_elements, (&t,), elements) && elements <= usize::MAX
            ==> 32 * blocks <= elements < 32 * blocks + 32
}

proof fn turned_floats<F: Fn(&GgufTensorInfo, usize) -> Vec<u32>>(
    file: GgufFile,
    name: Seq<char>,
    i: int,
    device: bool,
    dequantize: Option<&F>,
    floats: Vec<u32>,
)
    requires
        is_first_with_name(file.tensors@, name, i),
        file.tensors@[i].in_bounds(file.contents().len(), file.data_offset as nat),
        refusal(file, name, device, dequantize is Some) is None,
        turned_into(file, name, dequantize, floats),
    ensures
        are_floats_of(file, file.tensors@[i], dequantize, floats),
{
    first_one_is_found(file, name, i);
    let t: GgufTensorInfo = file.tensors@[i];
    let start: int = file.data_offset + t.offset_in_data as usize;
    let size: int = data_size(t.shape@, t.gguf_type) as int;
    let data: Seq<u8> = file.contents().subrange(start, start + size);
    let n: nat = (element_count(t.shape@) as u64 as usize) as nat;
    if t.gguf_type == GgufType::F32 || t.gguf_type == GgufType::F16 {
        assert(t.gguf_type.elements_per_block() == 1);
        assert((n + 1 - 1) as nat / 1 == n);
    }
    if t.gguf_type == GgufType::F32 {
        assert(floats@.len() == n);
        assert forall|j: int| 0 <= j < floats@.len() implies #[trigger] floats@[j] == four_bytes(
            file.contents(),
            start + 4 * j,
        ) by {
            bytes_spell(data, 4 * j);
        }
    } else if t.gguf_type == GgufType::F16 {
        assert(floats@.len() == n);
        assert forall|j: int| 0 <= j < floats@.len() implies is_widened(
            two_bytes(file.contents(), start + 2 * j) as u16,
            #[trigger] floats@[j],
        ) by {
            bytes_spell(data, 2 * j);
            wide_has_value(two_bytes(data, 2 * j) as u16, floats@[j]);
        }
    } else {
        let blocks: usize = full_blocks(t);
        assert(are_full_blocks(t, blocks)) by {
            assert forall|elements: u64| #[trigger]
                call_ensures(GgufTensorInfo::n_elements, (&t,), elements) && elements
                    <= usize::MAX implies 32 * blocks <= elements < 32 * blocks + 32 by {
                lemma_fundamental_div_mod(elements as int, 32);
            }
        }
    }
}

/// Whether a tensor can be turned into floats: it is a float tensor, or one of the two quantized
/// types that there is a kernel for, and the device and the pipelines are there.
pub open spec fn can_be_turned(t: GgufTensorInfo, device: bool, pipelines: bool) -> bool {
    match t.gguf_type {
        GgufType::F32 | GgufType::F16 => true,
        GgufType::Q4_0 | GgufType::Q8_0 => device && pipelines,
        _ => false,
    }
}

/// A named tensor is turned into the floats of the first tensor with the name, if it can be. If
/// not, the error says what is missing: the tensor, the device, the pipelines, or a way for its
/// type, by the type's name.
pub proof fn tensors_are_turned_into_their_floats<F: Fn(&GgufTensorInfo, usize) -> Vec<u32>>(
    file: &GgufFile,
    name: &str,
    device: bool,
    dequantize: Option<&F>,
    r: Result<Vec<u32>, String>,
    i: int,
    called: &str,
)
    requires
        call_ensures(dequant_tensor::<F>, (file, name, device, dequantize), r),
        is_first_with_name(file.tensors@, name@, i),
        file.tensors@[i].in_bounds(file.contents().len(), file.data_offset as nat),
        call_ensures(GgufType::name, (file.tensors@[i].gguf_type,), called),
    ensures
        r is Ok <==> can_be_turned(file.tensors@[i], device, dequantize is Some),
        r matches Ok(floats) ==> are_floats_of(*file, file.tensors@[i], dequantize, floats),
        r matches Err(e) ==> e@ == match file.tensors@[i].gguf_type {
            GgufType::Q4_0 | GgufType::Q8_0 => if device {
                "PSO cache required for "@ + called@ + " dequantization"@
            } else {
                "GPU device required for "@ + called@ + " dequantization"@
            },
            _ => "Unsupported quantization type: "@ + called@,
        },
{
    first_one_is_found(*file, name@, i);
    if let Ok(floats) = r {
        turned_floats(*file, name@, i, device, dequantize, floats);
    }
}

/// A tensor that is not in the file is reported by its name.
pub proof fn missing_tensors_are_reported<F: Fn(&GgufTensorInfo, usize) -> Vec<u32>>(
    file: &GgufFile,
    name: &str,
    device: bool,
    dequantize: Option<&F>,
    r: Result<Vec<u32>, String>,
)
    requires
        call_ensures(dequant_tensor::<F>, (file, name, device, dequantize), r),
        forall|j: int|
            0 <= j < file.tensors@.len() ==> (#[trigger] file.tensors@[j]).name@ != name@,
    ensures
        r matches Err(e) && e@ == "Tensor not found: "@ + name@,
{
    found_tensor_is_first(*file, name@);
    if has_tensor(*file, name@) {
        let at: int = first_named(tensor_models(file.tensors@), name@);
        assert(file.tensors@[at].name@ != name@);
    }
}

/// The tensors of a layer in the order in which they are loaded, by the ends of their names.
pub open spec fn loading_order() -> Seq<Seq<char>> {
    seq![
        "attn_norm.weight"@,
        "ffn_norm.weight"@,
        "attn_q.weight"@,
        "attn_k.weight"@,
        "attn_v.weight"@,
        "attn_output.weight"@,
        "ffn_gate.weight"@,
        "ffn_up.weight"@,
        "ffn_down.weight"@,
    ]
}

/// The name of the tensor of a layer whose name ends in `suffix`.
pub open spec fn tensor_of_layer(layer: nat, suffix: Seq<char>) -> Seq<char> {
    "blk."@ + decimal(layer) + "."@ + suffix
}

/// Whether `floats` are those of the layer's first tensor with the given end of its name.
pub open spec fn are_weights_of<F: Fn(&GgufTensorInfo, usize) -> Vec<u32>>(
    file: GgufFile,
    layer: nat,
    suffix: Seq<char>,
    dequantize: Option<&F>,
    floats: Vec<u32>,
) -> bool {
    exists|i: int|
        #[trigger] is_first_with_name(file.tensors@, tensor_of_layer(layer, suffix), i)
            && are_floats_of(file, file.tensors@[i], dequantize, floats)
}

/// Whether tensor `k` in the loading order can be turned into floats. The norms are loaded without
/// pipelines.
pub open spec fn loads(
    file: GgufFile,
    layer: nat,
    k: int,
    device: bool,
    pipelines: bool,
) -> bool {
    exists|i: int|
        #[trigger] is_first_with_name(
            file.tensors@,
            tensor_of_layer(layer, loading_order()[k]),
            i,
        ) && can_be_turned(file.tensors@[i], device, pipelines && k >= 2)
}

proof fn refused_or_loaded(
    file: GgufFile,
    layer: nat,
    k: int,
    device: bool,
    pipelines: bool,
)
    requires
        0 <= k < 9,
    ensures
        weight_refusal(file, layer, device, pipelines, k) is None <==> loads(
            file,
            layer,
            k,
            device,
            pipelines,
        ),
        weight_suffix(k) == loading_order()[k],
        layer_name(layer, weight_suffix(k)) == tensor_of_layer(layer, loading_order()[k]),
{
    let name: Seq<char> = tensor_of_layer(layer, loading_order()[k]);
    assert(weight_suffix(k) == loading_order()[k]);
    found_tensor_is_first(file, name);
    if has_tensor(file, name) {
        let at: int = first_named(tensor_models(file.tensors@), name);
        assert(is_first_with_name(file.tensors@, name, at));
        if loads(file, layer, k, device, pipelines) {
            let i: int = choose|i: int|
                #[trigger] is_first_with_name(file.tensors@, name, i) && can_be_turned(
                    file.tensors@[i],
                    device,
                    pipelines && k >= 2,
                );
            first_one_is_found(file, name, i);
        }
    } else if loads(file, layer, k, device, pipelines) {
        let i: int = choose|i: int|
            #[trigger] is_first_with_name(file.tensors@, name, i) && can_be_turned(
                file.tensors@[i],
                device,
                pipelines && k >= 2,
            );
        assert(file.tensors@[i].name@ != name);
    }
}

proof fn refusals_from(
    file: GgufFile,
    layer: nat,
    device: bool,
    pipelines: bool,
    k: int,
)
    requires
        0 <= k <= 9,
    ensures
        layer_refusal(file, layer, device, pipelines, k) is None <==> forall|j: int|
            k <= j < 9 ==> #[trigger] loads(file, layer, j, device, pipelines),
    decreases 9 - k,
{
    if k < 9 {
        refused_or_loaded(file, layer, k, device, pipelines);
        refusals_from(file, layer, device, pipelines, k + 1);
        if layer_refusal(file, layer, device, pipelines, k) is None {
            assert(loads(file, layer, k, device, pipelines));
        }
    }
}

proof fn refusal_of_first(
    file: GgufFile,
    layer: nat,
    device: bool,
    pipelines: bool,
    from: int,
    k: int,
)
    requires
        0 <= from <= k < 9,
        forall|j: int| from <= j < k ==> #[trigger] loads(file, layer, j, device, pipelines),
        !loads(file, layer, k, device, pipelines),
    ensures
        layer_refusal(file, layer, device, pipelines, from) == weight_refusal(
            file,
            layer,
            device,
            pipelines,
            k,
        ),
    decreases k - from,
{
    refused_or_loaded(file, layer, from, device, pipelines);
    if from < k {
        assert(loads(file, layer, from, device, pipelines));
        refusal_of_first(file, layer, device, pipelines, from + 1, k);
    }
}

proof fn loaded_weights<F: Fn(&GgufTensorInfo, usize) -> Vec<u32>>(
    file: GgufFile,
    layer: nat,
    k: int,
    device: bool,
    dequantize: Option<&F>,
    floats: Vec<u32>,
)
    requires
        0 <= k < 9,
        forall|i: int|
            0 <= i < file.tensors@.len() ==> (#[trigger] file.tensors@[i]).in_bounds(
                file.contents().len(),
                file.data_offset as nat,
            ),
        refusal(file, layer_name(layer, weight_suffix(k)), device, dequantize is Some) is None,
        turned_into(file, layer_name(layer, weight_suffix(k)), dequantize, floats),
    ensures
        are_weights_of(file, layer, loading_order()[k], dequantize, floats),
{
    let name: Seq<char> = tensor_of_layer(layer, loading_order()[k]);
    assert(weight_suffix(k) == loading_order()[k]);
    found_tensor_is_first(file, name);
    let at: int = first_named(tensor_models(file.tensors@), name);
    assert(is_first_with_name(file.tensors@, name, at));
    assert(file.tensors@[at].in_bounds(file.contents().len(), file.data_offset as nat));
    turned_floats(file, name, at, device, dequantize, floats);
}

/// A layer is loaded exactly if each of its nine tensors can be turned into floats, and then each
/// weight is that of the tensor which is called after it.
pub proof fn layers_are_loaded_from_their_tensors<F: Fn(&GgufTensorInfo, usize) -> Vec<u32>>(
    file: &GgufFile,
    layer: usize,
    config: &ModelConfig,
    intermediate_size: usize,
    device: bool,
    dequantize: Option<&F>,
    r: Result<LlamaLayer, String>,
)
    requires
        call_ensures(
            LlamaLayer::from_gguf::<F>,
            (file, layer, config, intermediate_size, device, dequantize),
            r,
        ),
        forall|i: int|
            0 <= i < file.tensors@.len() ==> (#[trigger] file.tensors@[i]).in_bounds(
                file.contents().len(),
                file.data_offset as nat,
            ),
    ensures
        r is Ok <==> forall|k: int|
            0 <= k < 9 ==> #[trigger] loads(*file, layer as nat, k, device, dequantize is Some),
        r matches Ok(llama) ==> {
            let n = layer as nat;
            let attention = llama.attention;
            let none = None::<&F>;
            &&& llama.hidden_size == config.hidden_size
            &&& llama.intermediate_size == intermediate_size
            &&& attention.hidden_size == config.hidden_size
            &&& attention.head_dim == config.head_dim
            &&& attention.num_heads == config.num_heads
            &&& attention.num_kv_heads == config.num_kv_heads
            &&& attention.max_seq_len == 2048
            &&& are_weights_of(*file, n, "attn_norm.weight"@, none, llama.attn_norm_weight)
            &&& are_weights_of(*file, n, "ffn_norm.weight"@, none, llama.ffn_norm_weight)
            &&& are_weights_of(*file, n, "attn_q.weight"@, dequantize, attention.w_q)
            &&& are_weights_of(*file, n, "attn_k.weight"@, dequantize, attention.w_k)
            &&& are_weights_of(*file, n, "attn_v.weight"@, dequantize, attention.w_v)
            &&& are_weights_of(*file, n, "attn_output.weight"@, dequantize, attention.w_o)
            &&& are_weights_of(*file, n, "ffn_gate.weight"@, dequantize, llama.w_gate)
            &&& are_weights_of(*file, n, "ffn_up.weight"@, dequantize, llama.w_up)
            &&& are_weights_of(*file, n, "ffn_down.weight"@, dequantize, llama.w_down)
        },
{
    let n: nat = layer as nat;
    let pipelines: bool = dequantize is Some;
    refusals_from(*file, n, device, pipelines, 0);
    if let Ok(llama) = r {
        assert forall|k: int| 0 <= k < 9 implies #[trigger] weight_refusal(
            *file,
            n,
            device,
            pipelines,
            k,
        ) is None by {
            assert(loads(*file, n, k, device, pipelines));
            refused_or_loaded(*file, n, k, device, pipelines);
        }
        let none: Option<&F> = None::<&F>;
        assert(weight_refusal(*file, n, device, pipelines, 0) is None);
        loaded_weights(*file, n, 0, device, none, llama.attn_norm_weight);
        assert(weight_refusal(*file, n, device, pipelines, 1) is None);
        loaded_weights(*file, n, 1, device, none, llama.ffn_norm_weight);
        assert(weight_refusal(*file, n, device, pipelines, 2) is None);
        loaded_weights(*file, n, 2, device, dequantize, llama.attention.w_q);
        assert(weight_refusal(*file, n, device, pipelines, 3) is None);
        loaded_weights(*file, n, 3, device, dequantize, llama.attention.w_k);
        assert(weight_refusal(*file, n, device, pipelines, 4) is None);
        loaded_weights(*file, n, 4, device, dequantize, llama.attention.w_v);
        assert(weight_refusal(*file, n, device, pipelines, 5) is None);
        loaded_weights(*file, n, 5, device, dequantize, llama.attention.w_o);
        assert(weight_refusal(*file, n, device, pipelines, 6) is None);
        loaded_weights(*file, n, 6, device, dequantize, llama.w_gate);
        assert(weight_refusal(*file, n, device, pipelines, 7) is None);
        loaded_weights(*file, n, 7, device, dequantize, llama.w_up);
        assert(weight_refusal(*file, n, device, pipelines, 8) is None);
        loaded_weights(*file, n, 8, device, dequantize, llama.w_down);
    }
}

proof fn whole_from(
    file: GgufFile,
    layer: nat,
    device: bool,
    pipelines: bool,
    from: int,
)
    requires
        0 <= from <= 9,
        forall|j: int| 0 <= j < from ==> #[trigger] loads(file, layer, j, device, pipelines),
    ensures
        layer_is_whole(file, layer, device, pipelines, from) <==> forall|k: int, i: int|
            from <= k < 9 && comes_to(file, layer, device, pipelines, k)
                && #[trigger] is_first_with_name(
                file.tensors@,
                tensor_of_layer(layer, loading_order()[k]),
                i,
            ) ==> file.tensors@[i].in_bounds(file.contents().len(), file.data_offset as nat),
    decreases 9 - from,
{
    if from < 9 {
        refused_or_loaded(file, layer, from, device, pipelines);
        let name: Seq<char> = tensor_of_layer(layer, loading_order()[from]);
        found_tensor_is_first(file, name);
        let at: int = first_named(tensor_models(file.tensors@), name);
        let whole: bool = layer_is_whole(file, layer, device, pipelines, from);
        let all: bool = forall|k: int, i: int|
            from <= k < 9 && comes_to(file, layer, device, pipelines, k)
                && #[trigger] is_first_with_name(
                file.tensors@,
                tensor_of_layer(layer, loading_order()[k]),
                i,
            ) ==> file.tensors@[i].in_bounds(file.contents().len(), file.data_offset as nat);
        if has_tensor(file, name) {
            assert(is_first_with_name(file.tensors@, name, at));
            assert(comes_to(file, layer, device, pipelines, from));
        }
        if loads(file, layer, from, device, pipelines) {
            whole_from(file, layer, device, pipelines, from + 1);
        }
        if whole {
            assert forall|k: int, i: int|
                from <= k < 9 && comes_to(file, layer, device, pipelines, k)
                    && #[trigger] is_first_with_name(
                    file.tensors@,
                    tensor_of_layer(layer, loading_order()[k]),
                    i,
                ) implies file.tensors@[i].in_bounds(
                file.contents().len(),
                file.data_offset as nat,
            ) by {
                if k == from {
                    first_one_is_found(file, name, i);
                } else {
                    assert(loads(file, layer, from, device, pipelines));
                }
            }
        }
        if all {
            assert(whole);
        }
    }
}

/// Whether loading comes to tensor `k` in the loading order: all in front of it can be turned into
/// floats.
pub open spec fn comes_to(
    file: GgufFile,
    layer: nat,
    device: bool,
    pipelines: bool,
    k: int,
) -> bool {
    forall|j: int| 0 <= j < k ==> #[trigger] loads(file, layer, j, device, pipelines)
}

/// A layer can be loaded without leaving the file exactly if each of its tensors that loading comes
/// to lies in the file.
pub proof fn layers_can_be_loaded_from_whole_files(
    file: &GgufFile,
    layer: usize,
    device: bool,
    pipelines: bool,
    r: bool,
)
    requires
        call_ensures(can_load_layer, (file, layer, device, pipelines), r),
    ensures
        r <==> forall|k: int, i: int|
            0 <= k < 9 && comes_to(*file, layer as nat, device, pipelines, k)
                && #[trigger] is_first_with_name(
                file.tensors@,
                tensor_of_layer(layer as nat, loading_order()[k]),
                i,
            ) ==> file.tensors@[i].in_bounds(file.contents().len(), file.data_offset as nat),
{
    whole_from(*file, layer as nat, device, pipelines, 0);
}

/// A layer that is not loaded is refused for the first of its tensors, in the loading order, that
/// cannot be turned into floats, with the error that turning that tensor gives.
pub proof fn layers_are_refused_for_their_first_failure<
    F: Fn(&GgufTensorInfo, usize) -> Vec<u32>,
>(
    file: &GgufFile,
    layer: usize,
    config: &ModelConfig,
    intermediate_size: usize,
    device: bool,
    dequantize: Option<&F>,
    r: Result<LlamaLayer, String>,
    k: int,
    name: &str,
    own: Result<Vec<u32>, String>,
)
    requires
        call_ensures(
            LlamaLayer::from_gguf::<F>,
            (file, layer, config, intermediate_size, device, dequantize),
            r,
        ),
        0 <= k < 9,
        forall|j: int|
            0 <= j < k ==> #[trigger] loads(*file, layer as nat, j, device, dequantize is Some),
        !loads(*file, layer as nat, k, device, dequantize is Some),
        name@ == tensor_of_layer(layer as nat, loading_order()[k]),
        call_ensures(
            dequant_tensor::<F>,
            (file, name, device, if k >= 2 {
                dequantize
            } else {
                None::<&F>
            }),
            own,
        ),
    ensures
        own matches Err(e) && r matches Err(f) && e@ == f@,
{
    refusal_of_first(*file, layer as nat, device, dequantize is Some, 0, k);
    refused_or_loaded(*file, layer as nat, k, device, dequantize is Some);
}

} // verus!
