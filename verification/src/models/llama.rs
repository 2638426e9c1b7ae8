//! Llama/Mistral model layer: pure transformer with softmax attention.
//!
//! The weights of layer N come from nine tensors of a model file, `blk.N.attn_norm.weight` and
//! eight more.

use super::flash_attn::{same_shape, FlashAttentionLayer, FlashAttentionState, DEFAULT_MAX_SEQ};
use super::registry::ModelConfig;
use super::weights::{drawn, seeded, state_after, weighs_all, SimpleRng, WeightRange};
use crate::gguf::architectures::{
    layer_name, layer_name_is_mapped_back, layer_tensor_name, role_of, ModelArchitecture,
    WeightRole,
};
use crate::gguf::floats::{floats_in, read_floats, read_half_floats, same_values};
use crate::gguf::parser::{first_named, GgufFile};
use crate::gguf::quantize::GgufType;
use crate::gguf::tensor::{data_size, element_count, tensor_models, GgufTensorInfo};
use crate::traits::attention::PositionEncoding;
use crate::traits::sequence::SequenceBlock;
use crate::traits::types::{BlockConfig, DType, TensorView};
use vstd::prelude::*;
use vstd::string::*;

verus! {

/// The bit pattern of the 32-bit float 1.
pub const ONE: u32 = 0x3F80_0000;

/// Whether a file has a tensor with the given name.
pub open spec fn has_tensor(file: GgufFile, name: Seq<char>) -> bool {
    first_named(tensor_models(file.tensors@), name) < file.tensors@.len()
}

/// The first tensor with the given name.
pub open spec fn tensor_named(file: GgufFile, name: Seq<char>) -> GgufTensorInfo {
    file.tensors@[first_named(tensor_models(file.tensors@), name)]
}

/// Whether the data of the tensor with the given name, if there is one, lies in the file.
pub open spec fn tensor_is_whole(file: GgufFile, name: Seq<char>) -> bool {
    has_tensor(file, name) ==> tensor_named(file, name).in_bounds(
        file.contents().len(),
        file.data_offset as nat,
    )
}

/// The data of a tensor in a file.
pub open spec fn data_of(file: GgufFile, tensor: GgufTensorInfo) -> Seq<u8> {
    let start = file.data_offset + tensor.offset_in_data as usize;
    file.contents().subrange(start, start + data_size(tensor.shape@, tensor.gguf_type))
}

/// The number of full quantization blocks of a tensor.
pub open spec fn full_blocks(tensor: GgufTensorInfo) -> usize {
    (element_count(tensor.shape@) as u64 as usize as nat
        / tensor.gguf_type.elements_per_block()) as usize
}

/// Why the tensor with the given name cannot be turned into floats, if it cannot: it is missing,
/// or it is quantized and the device or the pipelines for that are missing, or no way is known for
/// its type.
pub open spec fn refusal(file: GgufFile, name: Seq<char>, device: bool, pipelines: bool) -> Option<
    Seq<char>,
> {
    if !has_tensor(file, name) {
        Some("Tensor not found: "@ + name)
    } else {
        let t = tensor_named(file, name).gguf_type;
        match t {
            GgufType::F32 | GgufType::F16 => None,
            GgufType::Q4_0 | GgufType::Q8_0 => if !device {
                Some("GPU device required for "@ + t.text() + " dequantization"@)
            } else if !pipelines {
                Some("PSO cache required for "@ + t.text() + " dequantization"@)
            } else {
                None
            },
            _ => Some("Unsupported quantization type: "@ + t.text()),
        }
    }
}

/// Whether `floats` is what the tensor with the given name is turned into: its floats as they are,
/// its 16-bit floats widened, or what `dequantize` makes of its full blocks.
pub open spec fn turned_into<F: Fn(&GgufTensorInfo, usize) -> Vec<u32>>(
    file: GgufFile,
    name: Seq<char>,
    dequantize: Option<&F>,
    floats: Vec<u32>,
) -> bool {
    let tensor = tensor_named(file, name);
    match tensor.gguf_type {
        GgufType::F32 => floats@ == floats_in(data_of(file, tensor)),
        GgufType::F16 => same_values(data_of(file, tensor), floats@),
        _ => dequantize matches Some(f) && call_ensures(
            *f,
            (&tensor, full_blocks(tensor)),
            floats,
        ),
    }
}

/// Whether `dequantize`, if given, takes every tensor and number of blocks.
pub open spec fn dequantizes_all<F: Fn(&GgufTensorInfo, usize) -> Vec<u32>>(
    dequantize: Option<&F>,
) -> bool {
    dequantize matches Some(f) ==> forall|t: &GgufTensorInfo, n: usize| #[trigger]
        call_requires(*f, (t, n))
}

/// Joins three texts.
fn join3(a: &str, b: &str, c: &str) -> (r: String)
    ensures
        r@ == a@ + b@ + c@,
{
    let mut text: String = a.to_owned();
    text.append(b);
    text.append(c);
    text
}

/// Turn a named tensor of a model file into floats.
///
/// A quantized tensor is handed to `dequantize` with its number of full blocks, provided that
/// there is a device.
pub fn dequant_tensor<F: Fn(&GgufTensorInfo, usize) -> Vec<u32>>(
    gguf_file: &GgufFile,
    tensor_name: &str,
    device: bool,
    dequantize: Option<&F>,
) -> (r: Result<Vec<u32>, String>)
    requires
        tensor_is_whole(*gguf_file, tensor_name@),
        dequantizes_all(dequantize),
    ensures
        match refusal(*gguf_file, tensor_name@, device, dequantize is Some) {
            Some(text) => r matches Err(e) && e@ == text,
            None => r matches Ok(floats) && turned_into(
                *gguf_file,
                tensor_name@,
                dequantize,
                floats,
            ),
        },
{
    let tensor_info: &GgufTensorInfo = match gguf_file.find_tensor(tensor_name) {
        None => {
            let mut text: String = "Tensor not found: ".to_owned();
            text.append(tensor_name);
            return Err(text);
        },
        Some(t) => t,
    };
    let t: GgufType = tensor_info.gguf_type;
    let bytes: &[u8] = gguf_file.tensor_data(tensor_info);
    match t {
        GgufType::F32 => Ok(read_floats(bytes)),
        GgufType::F16 => Ok(read_half_floats(bytes)),
        GgufType::Q4_0 | GgufType::Q8_0 => {
            if !device {
                return Err(join3("GPU device required for ", t.name(), " dequantization"));
            }
            match dequantize {
                None => Err(join3("PSO cache required for ", t.name(), " dequantization")),
                Some(f) => {
                    let n_elements: usize = tensor_info.n_elements() as usize;
                    Ok(f(tensor_info, n_elements / t.block_size()))
                },
            }
        },
        _ => {
            let mut text: String = "Unsupported quantization type: ".to_owned();
            text.append(t.name());
            Err(text)
        },
    }
}

/// Persistent state for one LlamaLayer.
pub struct LlamaState {
    /// Attention layer state (KV cache).
    pub attn_state: FlashAttentionState,
}

impl Clone for LlamaState {
    fn clone(&self) -> (r: LlamaState)
        ensures
            r.attn_state.kv_cache.model() == self.attn_state.kv_cache.model(),
            self.attn_state.kv_cache.wf() ==> r.attn_state.kv_cache.wf(),
    {
        LlamaState { attn_state: self.attn_state.clone() }
    }
}

/// Llama-style transformer block.
///
/// Forward pass: RMSNorm -> Attention -> Residual -> RMSNorm -> SwiGLU FFN -> Residual
pub struct LlamaLayer {
    /// Attention sub-layer handling Q/K/V projections and attention.
    pub attention: FlashAttentionLayer,
    /// Attention RMSNorm weight: [hidden_size].
    pub attn_norm_weight: Vec<u32>,
    /// FFN RMSNorm weight: [hidden_size].
    pub ffn_norm_weight: Vec<u32>,
    /// SwiGLU gate projection: [intermediate_size, hidden_size], row-major.
    pub w_gate: Vec<u32>,
    /// SwiGLU up projection: [intermediate_size, hidden_size], row-major.
    pub w_up: Vec<u32>,
    /// SwiGLU down projection: [hidden_size, intermediate_size], row-major.
    pub w_down: Vec<u32>,
    /// Hidden size (model dimension).
    pub hidden_size: usize,
    /// Intermediate size for FFN.
    pub intermediate_size: usize,
}

/// The end of the name of the `i`-th tensor that a layer is loaded from.
pub open spec fn weight_suffix(i: int) -> Seq<char> {
    if i == 0 {
        "attn_norm.weight"@
    } else if i == 1 {
        "ffn_norm.weight"@
    } else if i == 2 {
        "attn_q.weight"@
    } else if i == 3 {
        "attn_k.weight"@
    } else if i == 4 {
        "attn_v.weight"@
    } else if i == 5 {
        "attn_output.weight"@
    } else if i == 6 {
        "ffn_gate.weight"@
    } else if i == 7 {
        "ffn_up.weight"@
    } else {
        "ffn_down.weight"@
    }
}

/// The role of the `i`-th tensor that a layer is loaded from.
pub open spec fn weight_role(i: int) -> WeightRole {
    if i == 0 {
        WeightRole::AttnNorm
    } else if i == 1 {
        WeightRole::FfnNorm
    } else if i == 2 {
        WeightRole::QProj
    } else if i == 3 {
        WeightRole::KProj
    } else if i == 4 {
        WeightRole::VProj
    } else if i == 5 {
        WeightRole::OutProj
    } else if i == 6 {
        WeightRole::GateProj
    } else if i == 7 {
        WeightRole::UpProj
    } else {
        WeightRole::DownProj
    }
}

/// Why the `i`-th tensor of a layer cannot be loaded, if it cannot. The two norms are loaded
/// without pipelines.
pub open spec fn weight_refusal(
    file: GgufFile,
    layer: nat,
    device: bool,
    pipelines: bool,
    i: int,
) -> Option<Seq<char>> {
    refusal(file, layer_name(layer, weight_suffix(i)), device, pipelines && i >= 2)
}

/// Why a layer cannot be loaded from its tensors from the `i`-th on, if it cannot: the first of
/// them that is refused says so.
pub open spec fn layer_refusal(
    file: GgufFile,
    layer: nat,
    device: bool,
    pipelines: bool,
    i: int,
) -> Option<Seq<char>>
    decreases 9 - i,
{
    if i >= 9 {
        None
    } else if weight_refusal(file, layer, device, pipelines, i) is Some {
        weight_refusal(file, layer, device, pipelines, i)
    } else {
        layer_refusal(file, layer, device, pipelines, i + 1)
    }
}

/// Whether the tensors that loading a layer comes to, from the `i`-th on, lie in the file.
pub open spec fn layer_is_whole(
    file: GgufFile,
    layer: nat,
    device: bool,
    pipelines: bool,
    i: int,
) -> bool
    decreases 9 - i,
{
    i < 9 ==> {
        &&& tensor_is_whole(file, layer_name(layer, weight_suffix(i)))
        &&& weight_refusal(file, layer, device, pipelines, i) is None ==> layer_is_whole(
            file,
            layer,
            device,
            pipelines,
            i + 1,
        )
    }
}

/// How the name of the `i`-th tensor that a layer is loaded from ends.
fn suffix_of(i: usize) -> (r: &'static str)
    requires
        i < 9,
    ensures
        r@ == weight_suffix(i as int),
{
    match i {
        0 => "attn_norm.weight",
        1 => "ffn_norm.weight",
        2 => "attn_q.weight",
        3 => "attn_k.weight",
        4 => "attn_v.weight",
        5 => "attn_output.weight",
        6 => "ffn_gate.weight",
        7 => "ffn_up.weight",
        _ => "ffn_down.weight",
    }
}

/// Whether the tensors that loading a layer comes to lie in the file.
pub fn can_load_layer(
    gguf_file: &GgufFile,
    layer_idx: usize,
    device: bool,
    pipelines: bool,
) -> (r: bool)
    ensures
        r == layer_is_whole(*gguf_file, layer_idx as nat, device, pipelines, 0),
{
    let mut i: usize = 0;
    while i < 9
        invariant
            i <= 9,
            layer_is_whole(*gguf_file, layer_idx as nat, device, pipelines, 0) == layer_is_whole(
                *gguf_file,
                layer_idx as nat,
                device,
                pipelines,
                i as int,
            ),
        decreases 9 - i,
    {
        let name: String = layer_tensor_name(layer_idx, suffix_of(i));
        let tensor: &GgufTensorInfo = match gguf_file.find_tensor(name.as_str()) {
            None => {
                return true;
            },
            Some(t) => t,
        };
        if !tensor.lies_within(gguf_file.mmap.len(), gguf_file.data_offset) {
            return false;
        }
        let loads: bool = match tensor.gguf_type {
            GgufType::F32 | GgufType::F16 => true,
            GgufType::Q4_0 | GgufType::Q8_0 => device && pipelines && i >= 2,
            _ => false,
        };
        if !loads {
            return true;
        }
        i = i + 1;
    }
    true
}

/// Load the tensor of a layer whose name ends in `suffix`.
fn load_weight<F: Fn(&GgufTensorInfo, usize) -> Vec<u32>>(
    gguf_file: &GgufFile,
    layer: usize,
    suffix: &str,
    device: bool,
    dequantize: Option<&F>,
) -> (r: Result<Vec<u32>, String>)
    requires
        tensor_is_whole(*gguf_file, layer_name(layer as nat, suffix@)),
        dequantizes_all(dequantize),
    ensures
        match refusal(
            *gguf_file,
            layer_name(layer as nat, suffix@),
            device,
            dequantize is Some,
        ) {
            Some(text) => r matches Err(e) && e@ == text,
            None => r matches Ok(floats) && turned_into(
                *gguf_file,
                layer_name(layer as nat, suffix@),
                dequantize,
                floats,
            ),
        },
{
    let name: String = layer_tensor_name(layer, suffix);
    dequant_tensor(gguf_file, name.as_str(), device, dequantize)
}

impl LlamaLayer {
    /// Whether the weights of a layer of these sizes can be counted on this machine.
    pub open spec fn sizes_fit(
        hidden_size: usize,
        head_dim: usize,
        num_heads: usize,
        num_kv_heads: usize,
    ) -> bool {
        &&& FlashAttentionLayer::sizes_fit(hidden_size, head_dim, num_heads, num_kv_heads)
        &&& hidden_size * 4 <= usize::MAX
        &&& hidden_size * 4 * hidden_size <= usize::MAX
    }

    /// Whether this layer has the given sizes and the weights that a seed gives: attention has the
    /// next seed, the norms are all ones, and the projections are drawn one after the other.
    pub open spec fn is_random<F: Fn(u32, WeightRange) -> u32>(
        self,
        hidden_size: usize,
        head_dim: usize,
        num_heads: usize,
        num_kv_heads: usize,
        seed: u64,
        to_weight: F,
    ) -> bool {
        let range = WeightRange::Scaled { fan: hidden_size };
        let gate_start = seeded(seed);
        let up_start = state_after(gate_start, self.w_gate@.len());
        let down_start = state_after(up_start, self.w_up@.len());
        &&& self.attention.is_random(
            hidden_size,
            head_dim,
            num_heads,
            num_kv_heads,
            (seed + 1) as u64,
            to_weight,
        )
        &&& self.attn_norm_weight@ == Seq::new(hidden_size as nat, |i: int| ONE)
        &&& self.ffn_norm_weight@ == Seq::new(hidden_size as nat, |i: int| ONE)
        &&& self.hidden_size == hidden_size
        &&& self.intermediate_size == hidden_size * 4
        &&& self.w_gate@.len() == hidden_size * 4 * hidden_size
        &&& self.w_up@.len() == hidden_size * 4 * hidden_size
        &&& self.w_down@.len() == hidden_size * 4 * hidden_size
        &&& drawn(to_weight, gate_start, range, self.w_gate@)
        &&& drawn(to_weight, up_start, range, self.w_up@)
        &&& drawn(to_weight, down_start, range, self.w_down@)
    }

    /// Create a LlamaLayer with random weights.
    pub fn random<F: Fn(u32, WeightRange) -> u32>(
        hidden_size: usize,
        head_dim: usize,
        num_heads: usize,
        num_kv_heads: usize,
        seed: u64,
        to_weight: &F,
    ) -> (r: LlamaLayer)
        requires
            Self::sizes_fit(hidden_size, head_dim, num_heads, num_kv_heads),
            seed < u64::MAX,
            weighs_all(*to_weight),
        ensures
            r.is_random(hidden_size, head_dim, num_heads, num_kv_heads, seed, *to_weight),
    {
        let intermediate_size: usize = hidden_size * 4;
        let mut rng: SimpleRng = SimpleRng::new(seed);
        let attention: FlashAttentionLayer = FlashAttentionLayer::random(
            hidden_size,
            head_dim,
            num_heads,
            num_kv_heads,
            seed + 1,
            to_weight,
        );
        let attn_norm_weight: Vec<u32> = vec![ONE; hidden_size];
        let ffn_norm_weight: Vec<u32> = vec![ONE; hidden_size];
        assert(attn_norm_weight@ =~= Seq::new(hidden_size as nat, |i: int| ONE));
        assert(ffn_norm_weight@ =~= Seq::new(hidden_size as nat, |i: int| ONE));
        let range: WeightRange = WeightRange::Scaled { fan: hidden_size };
        let w_gate: Vec<u32> = rng.draw(intermediate_size * hidden_size, range, to_weight);
        let w_up: Vec<u32> = rng.draw(intermediate_size * hidden_size, range, to_weight);
        assert(hidden_size * intermediate_size == intermediate_size * hidden_size)
            by (nonlinear_arith);
        let w_down: Vec<u32> = rng.draw(hidden_size * intermediate_size, range, to_weight);
        LlamaLayer {
            attention,
            attn_norm_weight,
            ffn_norm_weight,
            w_gate,
            w_up,
            w_down,
            hidden_size,
            intermediate_size,
        }
    }

    /// Whether this layer has the given sizes and the weights of the given layer of a file.
    pub open spec fn is_loaded<F: Fn(&GgufTensorInfo, usize) -> Vec<u32>>(
        self,
        file: GgufFile,
        layer: nat,
        config: ModelConfig,
        intermediate_size: usize,
        dequantize: Option<&F>,
    ) -> bool {
        &&& self.hidden_size == config.hidden_size
        &&& self.intermediate_size == intermediate_size
        &&& self.attention.hidden_size == config.hidden_size
        &&& self.attention.head_dim == config.head_dim
        &&& self.attention.num_heads == config.num_heads
        &&& self.attention.num_kv_heads == config.num_kv_heads
        &&& self.attention.max_seq_len == DEFAULT_MAX_SEQ
        &&& self.attention.pos_encoding == PositionEncoding::NoEncoding
        &&& turned_into(
            file,
            layer_name(layer, weight_suffix(0)),
            None::<&F>,
            self.attn_norm_weight,
        )
        &&& turned_into(
            file,
            layer_name(layer, weight_suffix(1)),
            None::<&F>,
            self.ffn_norm_weight,
        )
        &&& turned_into(file, layer_name(layer, weight_suffix(2)), dequantize, self.attention.w_q)
        &&& turned_into(file, layer_name(layer, weight_suffix(3)), dequantize, self.attention.w_k)
        &&& turned_into(file, layer_name(layer, weight_suffix(4)), dequantize, self.attention.w_v)
        &&& turned_into(file, layer_name(layer, weight_suffix(5)), dequantize, self.attention.w_o)
        &&& turned_into(file, layer_name(layer, weight_suffix(6)), dequantize, self.w_gate)
        &&& turned_into(file, layer_name(layer, weight_suffix(7)), dequantize, self.w_up)
        &&& turned_into(file, layer_name(layer, weight_suffix(8)), dequantize, self.w_down)
    }

    /// Load a LlamaLayer from the tensors of a model file.
    ///
    /// Loads nine tensors for this layer: the two norms, Q/K/V/O projections, and SwiGLU
    /// gate/up/down weights. Quantized tensors, other than the norms, are handed to `dequantize`.
    pub fn from_gguf<F: Fn(&GgufTensorInfo, usize) -> Vec<u32>>(
        gguf_file: &GgufFile,
        layer_idx: usize,
        config: &ModelConfig,
        intermediate_size: usize,
        device: bool,
        dequantize: Option<&F>,
    ) -> (r: Result<LlamaLayer, String>)
        requires
            layer_is_whole(*gguf_file, layer_idx as nat, device, dequantize is Some, 0),
            dequantizes_all(dequantize),
        ensures
            match layer_refusal(*gguf_file, layer_idx as nat, device, dequantize is Some, 0) {
                Some(text) => r matches Err(e) && e@ == text,
                None => r matches Ok(layer) && layer.is_loaded(
                    *gguf_file,
                    layer_idx as nat,
                    *config,
                    intermediate_size,
                    dequantize,
                ),
            },
    {
        proof {
            reveal_with_fuel(layer_refusal, 10);
            reveal_with_fuel(layer_is_whole, 10);
        }
        let n: usize = layer_idx;
        let none: Option<&F> = None;

        // Norm weights
        let attn_norm_weight: Vec<u32> = match load_weight(
            gguf_file,
            n,
            "attn_norm.weight",
            device,
            none,
        ) {
            Err(e) => {
                return Err(e);
            },
            Ok(w) => w,
        };
        let ffn_norm_weight: Vec<u32> = match load_weight(
            gguf_file,
            n,
            "ffn_norm.weight",
            device,
            none,
        ) {
            Err(e) => {
                return Err(e);
            },
            Ok(w) => w,
        };

        // Attention weights
        let w_q: Vec<u32> = match load_weight(gguf_file, n, "attn_q.weight", device, dequantize) {
            Err(e) => {
                return Err(e);
            },
            Ok(w) => w,
        };
        let w_k: Vec<u32> = match load_weight(gguf_file, n, "attn_k.weight", device, dequantize) {
            Err(e) => {
                return Err(e);
            },
            Ok(w) => w,
        };
        let w_v: Vec<u32> = match load_weight(gguf_file, n, "attn_v.weight", device, dequantize) {
            Err(e) => {
                return Err(e);
            },
            Ok(w) => w,
        };
        let w_o: Vec<u32> = match load_weight(
            gguf_file,
            n,
            "attn_output.weight",
            device,
            dequantize,
        ) {
            Err(e) => {
                return Err(e);
            },
            Ok(w) => w,
        };

        // FFN weights
        let w_gate: Vec<u32> = match load_weight(
            gguf_file,
            n,
            "ffn_gate.weight",
            device,
            dequantize,
        ) {
            Err(e) => {
                return Err(e);
            },
            Ok(w) => w,
        };
        let w_up: Vec<u32> = match load_weight(gguf_file, n, "ffn_up.weight", device, dequantize) {
            Err(e) => {
                return Err(e);
            },
            Ok(w) => w,
        };
        let w_down: Vec<u32> = match load_weight(
            gguf_file,
            n,
            "ffn_down.weight",
            device,
            dequantize,
        ) {
            Err(e) => {
                return Err(e);
            },
            Ok(w) => w,
        };

        let attention: FlashAttentionLayer = FlashAttentionLayer {
            hidden_size: config.hidden_size,
            head_dim: config.head_dim,
            num_heads: config.num_heads,
            num_kv_heads: config.num_kv_heads,
            max_seq_len: DEFAULT_MAX_SEQ,
            w_q,
            w_k,
            w_v,
            w_o,
            pos_encoding: PositionEncoding::NoEncoding,
        };
        Ok(
            LlamaLayer {
                attention,
                attn_norm_weight,
                ffn_norm_weight,
                w_gate,
                w_up,
                w_down,
                hidden_size: config.hidden_size,
                intermediate_size,
            },
        )
    }
}

impl SequenceBlock for LlamaLayer {
    type State = LlamaState;

    open spec fn state_elems(&self) -> nat {
        self.attention.state_elems()
    }

    open spec fn state_fits(&self) -> bool {
        self.attention.state_fits()
    }

    /// An empty cache.
    open spec fn is_fresh(&self, state: LlamaState) -> bool {
        self.attention.is_fresh(state.attn_state)
    }

    fn init_state(&self, config: &BlockConfig) -> (r: LlamaState) {
        LlamaState { attn_state: self.attention.init_state(config) }
    }

    /// Only describes the shape of the output: no data pass through here, and the state stays.
    fn forward_prefill(
        &self,
        input: &TensorView,
        state: &mut LlamaState,
        config: &BlockConfig,
    ) -> (r: TensorView)
        ensures
            r.is_contiguous(input.shape@, DType::F32),
            *final(state) == *old(state),
    {
        same_shape(input)
    }

    /// Only describes the shape of the output: no data pass through here, and the state stays.
    fn forward_decode(
        &self,
        input: &TensorView,
        state: &mut LlamaState,
        config: &BlockConfig,
    ) -> (r: TensorView)
        ensures
            r.is_contiguous(input.shape@, DType::F32),
            *final(state) == *old(state),
    {
        same_shape(input)
    }

    fn state_size_bytes(&self, config: &BlockConfig) -> (r: usize) {
        self.attention.state_size_bytes(config)
    }
}

/// Each tensor that a layer is loaded from is one to which the name mapping gives that layer and
/// the role in which it is loaded.
pub proof fn loaded_tensors_have_their_roles(layer: usize, i: int)
    requires
        0 <= i < 9,
    ensures
        role_of(ModelArchitecture::Llama, layer_name(layer as nat, weight_suffix(i))) == Some(
            (Some(layer), weight_role(i)),
        ),
{
    layer_name_is_mapped_back(ModelArchitecture::Llama, layer, weight_suffix(i));
    suffixes_differ();
    assert(weight_suffix(0) == "attn_norm.weight"@);
    assert(weight_suffix(1) == "ffn_norm.weight"@);
    assert(weight_suffix(2) == "attn_q.weight"@);
    assert(weight_suffix(3) == "attn_k.weight"@);
    assert(weight_suffix(4) == "attn_v.weight"@);
    assert(weight_suffix(5) == "attn_output.weight"@);
    assert(weight_suffix(6) == "ffn_gate.weight"@);
    assert(weight_suffix(7) == "ffn_up.weight"@);
    assert(weight_suffix(8) == "ffn_down.weight"@);
}

/// The nine suffixes are told apart by their lengths or by a character.
proof fn suffixes_differ()
    ensures
        forall|i: int, j: int| 0 <= i < j < 9 ==> #[trigger] weight_suffix(i) != #[trigger]
            weight_suffix(j),
{
    reveal_strlit("attn_norm.weight");
    reveal_strlit("attn_q.weight");
    reveal_strlit("attn_k.weight");
    reveal_strlit("attn_v.weight");
    reveal_strlit("attn_output.weight");
    reveal_strlit("ffn_norm.weight");
    reveal_strlit("ffn_gate.weight");
    reveal_strlit("ffn_up.weight");
    reveal_strlit("ffn_down.weight");
    assert forall|i: int, j: int| 0 <= i < j < 9 implies #[trigger] weight_suffix(i)
        != #[trigger] weight_suffix(j) by {
        let a: Seq<char> = weight_suffix(i);
        let b: Seq<char> = weight_suffix(j);
        assert(a.len() != b.len() || a[0] != b[0] || a[4] != b[4] || a[5] != b[5]);
    }
}

} // verus!
