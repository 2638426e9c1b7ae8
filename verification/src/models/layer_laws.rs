//! Which layers a model has, and what each is made of.

use super::flash_attn::FlashAttentionState;
use super::griffin::{build_griffin_layers, is_griffin_layer, GriffinLayer, GriffinLayerState};
use super::jamba::{build_jamba_layers, is_jamba_layer, JambaLayer, JambaLayerState};
use super::llama::LlamaLayer;
use super::registry::{
    create_llama_layer, create_rwkv7_block, is_supported, supported_architectures, ModelConfig,
};
use super::rwkv7::Rwkv7Block;
use super::steps::{layer_seed, next_attention_step, seed_of_layer, LayerStep};
use super::weight_laws::{
    experts_are_drawn, experts_draws, llama_draws, llama_is_drawn, mamba_draws, mamba_is_drawn,
    projector_draws, projector_is_drawn, rg_lru_draws, rg_lru_is_drawn, rwkv7_draws, rwkv7_is_drawn,
};
use super::weights::WeightRange;
use super::zamba::{
    build_zamba_model, is_zamba_layer, projector_seed, zamba_types, ZambaLayer, ZambaLayerState,
    ZambaModel,
};
use crate::gguf::architectures::ModelArchitecture;
use crate::traits::schedule::{
    linear_layers_come_first, periodic_attention_count, periodic_type, LayerSchedule, LayerType,
};
use crate::traits::types::BlockConfig;
use vstd::arithmetic::div_mod::{
    lemma_fundamental_div_mod, lemma_fundamental_div_mod_converse, lemma_mod_sub_multiples_vanish,
};
use vstd::prelude::*;

verus! {

/// A periodic schedule has an attention layer behind each `ratio` linear layers: going `ratio + 1`
/// layers on leads to a layer of the same type, and of the first `ratio + 1` layers only the last
/// is an attention layer.
pub proof fn schedules_are_periodic(
    total_layers: usize,
    ratio: usize,
    r: LayerSchedule,
    i: int,
)
    requires
        call_ensures(LayerSchedule::periodic, (total_layers, ratio), r),
        0 <= i < total_layers,
    ensures
        r.types@.len() == total_layers,
        i < ratio ==> r.types@[i] == LayerType::Linear,
        i == ratio ==> r.types@[i] == LayerType::Attention,
        i > ratio ==> r.types@[i] == r.types@[i - ratio - 1],
{
    let p: int = ratio as int + 1;
    if i < ratio {
        linear_layers_come_first(ratio as nat, i);
    } else if i == ratio {
        assert(p % p == 0) by (nonlinear_arith)
            requires
                p > 0,
        ;
    } else {
        lemma_mod_sub_multiples_vanish(i + 1, p);
        assert((i + 1 - p) % p == (i + 1) % p);
    }
}

/// A schedule that is not periodic has the layers that were asked for.
pub proof fn schedules_have_their_layers(
    types: Vec<LayerType>,
    total_layers: usize,
    given: LayerSchedule,
    transformer: LayerSchedule,
    linear: LayerSchedule,
    index: usize,
    t: Option<LayerType>,
)
    requires
        call_ensures(LayerSchedule::explicit, (types,), given),
        call_ensures(LayerSchedule::pure_transformer, (total_layers,), transformer),
        call_ensures(LayerSchedule::pure_linear, (total_layers,), linear),
        call_ensures(LayerSchedule::layer_type, (&given, index), t),
    ensures
        given.types@ == types@,
        t is Some <==> index < types@.len(),
        index < types@.len() ==> t == Some(types@[index as int]),
        transformer.types@.len() == total_layers,
        linear.types@.len() == total_layers,
        index < total_layers ==> transformer.types@[index as int] == LayerType::Attention
            && linear.types@[index as int] == LayerType::Linear,
{
}

/// Counting layers of a type: one more layer of the type counts one more, one of the other type
/// none, and without layers there is nothing to count.
pub proof fn layers_are_counted_one_by_one(
    before: LayerSchedule,
    after: LayerSchedule,
    t: LayerType,
    linear_before: usize,
    attention_before: usize,
    linear: usize,
    attention: usize,
    total_before: usize,
    total: usize,
)
    requires
        call_ensures(LayerSchedule::total_layers, (&before,), total_before),
        call_ensures(LayerSchedule::total_layers, (&after,), total),
        after.types@ == before.types@.push(t),
        call_ensures(LayerSchedule::linear_count, (&before,), linear_before),
        call_ensures(LayerSchedule::attention_count, (&before,), attention_before),
        call_ensures(LayerSchedule::linear_count, (&after,), linear),
        call_ensures(LayerSchedule::attention_count, (&after,), attention),
    ensures
        t == LayerType::Linear ==> linear == linear_before + 1 && attention == attention_before,
        t == LayerType::Attention ==> attention == attention_before + 1 && linear == linear_before,
        total == total_before + 1,
        before.types@.len() == 0 ==> linear_before == 0 && attention_before == 0
            && total_before == 0,
{
    assert(after.types@.drop_last() =~= before.types@);
}

proof fn attention_ends_period(ratio: nat, i: int)
    requires
        0 <= i,
    ensures
        periodic_type(ratio, i) == LayerType::Attention <==> i % (ratio + 1) as int == ratio,
{
    let p: int = ratio as int + 1;
    let q: int = i / p;
    let m: int = i % p;
    lemma_fundamental_div_mod(i, p);
    if m == ratio {
        assert(i + 1 == p * (q + 1)) by (nonlinear_arith)
            requires
                i == p * q + m,
                m == p - 1,
        ;
        lemma_fundamental_div_mod_converse(i + 1, p, q + 1, 0);
    } else {
        lemma_fundamental_div_mod_converse(i + 1, p, q, m + 1);
    }
}

/// In a Griffin model every third layer is an attention layer, and the others are RG-LRU blocks.
/// Layer `i` has the weights of the seed that is `31 * i + 7` from the model's.
pub proof fn griffin_layers_are_made_in_turn<F: Fn(u32, WeightRange) -> u32>(
    hidden_size: usize,
    head_dim: usize,
    num_heads: usize,
    num_kv_heads: usize,
    num_layers: usize,
    seed: u64,
    to_weight: &F,
    r: (Vec<GriffinLayer>, LayerSchedule),
    i: int,
)
    requires
        call_ensures(
            build_griffin_layers::<F>,
            (hidden_size, head_dim, num_heads, num_kv_heads, num_layers, seed, to_weight),
            r,
        ),
        0 <= i < num_layers,
    ensures
        ({
            let own_seed = (seed + 31 * i + 7) as u64;
            &&& r.0@.len() == num_layers
            &&& r.1.types@.len() == num_layers
            &&& r.1.types@[i] == LayerType::Attention <==> i % 3 == 2
            &&& r.0@[i] is Attention <==> i % 3 == 2
            &&& r.0@[i] matches GriffinLayer::RgLru(block) ==> rg_lru_is_drawn(
                block,
                hidden_size,
                own_seed,
                *to_weight,
            )
            &&& r.0@[i] matches GriffinLayer::Attention(llama) ==> llama_is_drawn(
                llama,
                hidden_size,
                head_dim,
                num_heads,
                num_kv_heads,
                own_seed,
                *to_weight,
            )
        }),
{
    let own_seed: u64 = (seed + 31 * i + 7) as u64;
    assert(layer_seed(seed, i) == seed + 31 * i + 7);
    attention_ends_period(2, i);
    assert(is_griffin_layer(
        r.0@[i],
        i,
        hidden_size,
        head_dim,
        num_heads,
        num_kv_heads,
        seed,
        *to_weight,
    ));
    match r.0@[i] {
        GriffinLayer::RgLru(block) => {
            rg_lru_draws(block, hidden_size, own_seed, *to_weight);
        },
        GriffinLayer::Attention(llama) => {
            llama_draws(
                llama,
                hidden_size,
                head_dim,
                num_heads,
                num_kv_heads,
                own_seed,
                *to_weight,
            );
        },
    }
}

/// In a Jamba model every eighth layer is an attention layer, and the others are Mamba blocks with
/// experts. Layer `i` has the weights of the seed that is `31 * i + 7` from the model's, and its
/// experts those of a seed 1000 further.
pub proof fn jamba_layers_are_made_in_turn<F: Fn(u32, WeightRange) -> u32>(
    hidden_size: usize,
    head_dim: usize,
    num_heads: usize,
    num_kv_heads: usize,
    num_layers: usize,
    d_state: usize,
    num_experts: usize,
    seed: u64,
    to_weight: &F,
    r: (Vec<JambaLayer>, LayerSchedule),
    i: int,
)
    requires
        call_ensures(
            build_jamba_layers::<F>,
            (
                hidden_size,
                head_dim,
                num_heads,
                num_kv_heads,
                num_layers,
                d_state,
                num_experts,
                seed,
                to_weight,
            ),
            r,
        ),
        0 <= i < num_layers,
    ensures
        ({
            let own_seed = (seed + 31 * i + 7) as u64;
            &&& r.0@.len() == num_layers
            &&& r.1.types@.len() == num_layers
            &&& r.1.types@[i] == LayerType::Attention <==> i % 8 == 7
            &&& r.0@[i] is Attention <==> i % 8 == 7
            &&& r.0@[i] matches JambaLayer::Mamba { block, moe } ==> {
                &&& mamba_is_drawn(block, hidden_size, d_state, own_seed, *to_weight)
                &&& experts_are_drawn(
                    moe,
                    hidden_size,
                    num_experts,
                    (seed + 31 * i + 1007) as u64,
                    *to_weight,
                )
            }
            &&& r.0@[i] matches JambaLayer::Attention(llama) ==> llama_is_drawn(
                llama,
                hidden_size,
                head_dim,
                num_heads,
                num_kv_heads,
                own_seed,
                *to_weight,
            )
        }),
{
    let own_seed: u64 = (seed + 31 * i + 7) as u64;
    assert(layer_seed(seed, i) == seed + 31 * i + 7);
    attention_ends_period(7, i);
    assert(is_jamba_layer(
        r.0@[i],
        i,
        hidden_size,
        head_dim,
        num_heads,
        num_kv_heads,
        d_state,
        num_experts,
        seed,
        *to_weight,
    ));
    match r.0@[i] {
        JambaLayer::Mamba { block, moe } => {
            mamba_draws(block, hidden_size, d_state, own_seed, *to_weight);
            experts_draws(
                moe,
                hidden_size,
                num_experts,
                (seed + 31 * i + 1007) as u64,
                *to_weight,
            );
        },
        JambaLayer::Attention(llama) => {
            llama_draws(
                llama,
                hidden_size,
                head_dim,
                num_heads,
                num_kv_heads,
                own_seed,
                *to_weight,
            );
        },
    }
}

/// In a Zamba model every seventh layer is a use of the shared attention block, each with a
/// projector of its own, counted from the first, and the others are Mamba blocks. Layer `i` has
/// the weights of the seed that is `31 * i + 7` from the model's, the shared block of one 9999 from
/// it, and projector `a` of one `37 * a + 5000` from it.
pub proof fn zamba_layers_are_made_in_turn<F: Fn(u32, WeightRange) -> u32>(
    hidden_size: usize,
    head_dim: usize,
    num_heads: usize,
    num_kv_heads: usize,
    num_layers: usize,
    d_state: usize,
    lora_rank: usize,
    seed: u64,
    to_weight: &F,
    r: ZambaModel,
    i: int,
    a: int,
)
    requires
        call_ensures(
            build_zamba_model::<F>,
            (
                hidden_size,
                head_dim,
                num_heads,
                num_kv_heads,
                num_layers,
                d_state,
                lora_rank,
                seed,
                to_weight,
            ),
            r,
        ),
        0 <= i < num_layers,
    ensures
        ({
            let own_seed = (seed + 31 * i + 7) as u64;
            &&& r.layers@.len() == num_layers
            &&& r.schedule.types@.len() == num_layers
            &&& r.schedule.types@[i] == LayerType::Attention <==> i % 7 == 6
            &&& r.layers@[i] is Attention <==> i % 7 == 6
            &&& r.layers@[i] matches ZambaLayer::Mamba(block) ==> mamba_is_drawn(
                block,
                hidden_size,
                d_state,
                own_seed,
                *to_weight,
            )
            &&& r.layers@[i] matches ZambaLayer::Attention { attn_index } ==> 7 * attn_index + 6
                == i
            &&& llama_is_drawn(
                r.shared_attention,
                hidden_size,
                head_dim,
                num_heads,
                num_kv_heads,
                (seed + 9999) as u64,
                *to_weight,
            )
            &&& 7 * r.lora_projectors@.len() <= num_layers < 7 * (r.lora_projectors@.len() + 1)
            &&& 0 <= a < r.lora_projectors@.len() ==> projector_is_drawn(
                r.lora_projectors@[a],
                hidden_size,
                lora_rank,
                (seed + 37 * a + 5000) as u64,
                *to_weight,
            )
        }),
{
    let own_seed: u64 = (seed + 31 * i + 7) as u64;
    assert(layer_seed(seed, i) == seed + 31 * i + 7);
    attention_ends_period(6, i);
    assert(is_zamba_layer(r.layers@[i], i, hidden_size, d_state, seed, *to_weight));
    if let ZambaLayer::Mamba(block) = r.layers@[i] {
        mamba_draws(block, hidden_size, d_state, own_seed, *to_weight);
    }
    periodic_attention_count(i as nat, 6);
    assert(zamba_types(i as nat) =~= Seq::new(i as nat, |k: int| periodic_type(6, k)));
    periodic_attention_count(num_layers as nat, 6);
    assert(zamba_types(num_layers as nat) =~= Seq::new(
        num_layers as nat,
        |k: int| periodic_type(6, k),
    ));
    llama_draws(
        r.shared_attention,
        hidden_size,
        head_dim,
        num_heads,
        num_kv_heads,
        (seed + 9999) as u64,
        *to_weight,
    );
    if 0 <= a < r.lora_projectors@.len() {
        assert(projector_seed(seed, a) == seed + 37 * a + 5000);
        projector_draws(
            r.lora_projectors@[a],
            hidden_size,
            lora_rank,
            (seed + 37 * a + 5000) as u64,
            *to_weight,
        );
    }
}

/// The registry makes RWKV-7 blocks for RWKV models and Llama layers for Llama models, each with
/// the sizes of the configuration and the weights of the seed `31 * layer + 7`, and nothing for
/// other models.
pub proof fn registry_makes_layers_by_architecture<F: Fn(u32, WeightRange) -> u32>(
    config: &ModelConfig,
    layer_index: usize,
    to_weight: &F,
    rwkv: Option<Rwkv7Block>,
    llama: Option<LlamaLayer>,
    supported: bool,
    all: Vec<ModelArchitecture>,
)
    requires
        call_ensures(create_rwkv7_block::<F>, (config, layer_index, to_weight), rwkv),
        call_ensures(create_llama_layer::<F>, (config, layer_index, to_weight), llama),
        call_ensures(is_supported, (config.architecture,), supported),
        call_ensures(supported_architectures, (), all),
    ensures
        rwkv is Some <==> config.architecture == ModelArchitecture::Rwkv,
        llama is Some <==> config.architecture == ModelArchitecture::Llama,
        supported <==> rwkv is Some || llama is Some,
        supported <==> all@.contains(config.architecture),
        rwkv matches Some(block) ==> rwkv7_is_drawn(
            block,
            config.hidden_size,
            config.head_dim,
            config.num_heads,
            (31 * layer_index + 7) as u64,
            *to_weight,
        ),
        llama matches Some(layer) ==> llama_is_drawn(
            layer,
            config.hidden_size,
            config.head_dim,
            config.num_heads,
            config.num_kv_heads,
            (31 * layer_index + 7) as u64,
            *to_weight,
        ),
{
    assert(layer_seed(0, layer_index as int) == 31 * layer_index + 7);
    if let Some(block) = rwkv {
        rwkv7_draws(
            block,
            config.hidden_size,
            config.head_dim,
            config.num_heads,
            (31 * layer_index + 7) as u64,
            *to_weight,
        );
    }
    if let Some(layer) = llama {
        llama_draws(
            layer,
            config.hidden_size,
            config.head_dim,
            config.num_heads,
            config.num_kv_heads,
            (31 * layer_index + 7) as u64,
            *to_weight,
        );
    }
}

/// Whether a step is the one that an attention layer with this state takes: a prefill where no
/// token is cached, a decode where one is.
pub open spec fn attends(state: FlashAttentionState, step: Option<LayerStep>) -> bool {
    step == Some(
        if state.kv_cache.model().len > 0 {
            LayerStep::Decode
        } else {
            LayerStep::Prefill
        },
    )
}

/// A recurrent layer takes a token by its recurrence, an attention layer by attention, and neither
/// takes one with the other's state.
pub proof fn layers_step_by_their_kind(
    griffin: GriffinLayer,
    griffin_state: GriffinLayerState,
    griffin_step: Option<LayerStep>,
    jamba: JambaLayer,
    jamba_state: JambaLayerState,
    jamba_step: Option<LayerStep>,
    zamba: ZambaModel,
    layer: usize,
    zamba_state: ZambaLayerState,
    zamba_step: Option<LayerStep>,
    attention_state: FlashAttentionState,
    attention_step: LayerStep,
)
    requires
        call_ensures(next_attention_step, (&attention_state,), attention_step),
        layer < zamba.layers@.len(),
        call_ensures(GriffinLayer::next_step, (&griffin, &griffin_state), griffin_step),
        call_ensures(JambaLayer::next_step, (&jamba, &jamba_state), jamba_step),
        call_ensures(ZambaModel::next_step, (&zamba, layer, &zamba_state), zamba_step),
    ensures
        griffin_step is Some <==> (griffin is RgLru <==> griffin_state is RgLru),
        griffin is RgLru && griffin_state is RgLru ==> griffin_step == Some(LayerStep::Recurrent),
        griffin is Attention ==> (griffin_state matches GriffinLayerState::Attention(s) ==> attends(
            s,
            griffin_step,
        )),
        jamba_step is Some <==> (jamba is Mamba <==> jamba_state is Mamba),
        jamba is Mamba && jamba_state is Mamba ==> jamba_step == Some(LayerStep::Recurrent),
        jamba is Attention ==> (jamba_state matches JambaLayerState::Attention(s) ==> attends(
            s,
            jamba_step,
        )),
        zamba_step is Some <==> (zamba.layers@[layer as int] is Mamba <==> zamba_state is Mamba),
        zamba.layers@[layer as int] is Mamba && zamba_state is Mamba ==> zamba_step == Some(
            LayerStep::Recurrent,
        ),
        zamba.layers@[layer as int] is Attention ==> (
        zamba_state matches ZambaLayerState::Attention(s) ==> attends(s, zamba_step)),
        attends(attention_state, Some(attention_step)),
{
}

/// The seed of layer `i` is `31 * i + 7` from the model's.
pub proof fn layers_have_their_seeds(seed: u64, i: usize, r: u64)
    requires
        call_ensures(seed_of_layer, (seed, i), r),
    ensures
        r == seed + 31 * i + 7,
{
}

/// A layer's state is of the layer's kind, and starts empty: zeros for a recurrence, no tokens for
/// attention.
pub proof fn layer_states_are_of_their_kind(
    config: BlockConfig,
    griffin: GriffinLayer,
    griffin_state: GriffinLayerState,
    jamba: JambaLayer,
    jamba_state: JambaLayerState,
    zamba: ZambaModel,
    zamba_states: Vec<ZambaLayerState>,
    i: int,
)
    requires
        call_ensures(GriffinLayer::init_state, (&griffin, &config), griffin_state),
        call_ensures(JambaLayer::init_state, (&jamba, &config), jamba_state),
        call_ensures(ZambaModel::init_states, (&zamba, &config), zamba_states),
        0 <= i < zamba.layers@.len(),
    ensures
        griffin matches GriffinLayer::RgLru(block) ==> (
        griffin_state matches GriffinLayerState::RgLru(s) && s.hidden@.len() == block.hidden_size
            && forall|j: int| 0 <= j < s.hidden@.len() ==> #[trigger] s.hidden@[j] == 0),
        griffin is Attention ==> (griffin_state matches GriffinLayerState::Attention(s)
            && s.kv_cache.model().len == 0),
        jamba matches JambaLayer::Mamba { block, moe } ==> (
        jamba_state matches JambaLayerState::Mamba(s) && s.ssm_state@.len() == block.d_inner
            * block.d_state && forall|j: int|
            0 <= j < s.ssm_state@.len() ==> #[trigger] s.ssm_state@[j] == 0),
        jamba is Attention ==> (jamba_state matches JambaLayerState::Attention(s)
            && s.kv_cache.model().len == 0),
        zamba_states@.len() == zamba.layers@.len(),
        zamba.layers@[i] matches ZambaLayer::Mamba(block) ==> (
        zamba_states@[i] matches ZambaLayerState::Mamba(s) && s.ssm_state@.len() == block.d_inner
            * block.d_state && forall|j: int|
            0 <= j < s.ssm_state@.len() ==> #[trigger] s.ssm_state@[j] == 0),
        zamba.layers@[i] is Attention ==> (zamba_states@[i] matches ZambaLayerState::Attention(s)
            && s.kv_cache.model().len == 0),
{
    assert(zamba.is_fresh(i, zamba_states@[i]));
    if let JambaLayer::Mamba { block, moe } = jamba {
        assert(0 <= block.d_inner * block.d_state) by (nonlinear_arith);
    }
    if let ZambaLayer::Mamba(block) = zamba.layers@[i] {
        assert(0 <= block.d_inner * block.d_state) by (nonlinear_arith);
    }
}

/// A layer says of which kind it is.
pub proof fn layers_tell_their_kind(
    griffin: GriffinLayer,
    griffin_recurs: bool,
    griffin_attends: bool,
    jamba: JambaLayer,
    jamba_recurs: bool,
    jamba_attends: bool,
    zamba: ZambaLayer,
    zamba_recurs: bool,
    zamba_attends: bool,
)
    requires
        call_ensures(GriffinLayer::is_rglru, (&griffin,), griffin_recurs),
        call_ensures(GriffinLayer::is_attention, (&griffin,), griffin_attends),
        call_ensures(JambaLayer::is_mamba, (&jamba,), jamba_recurs),
        call_ensures(JambaLayer::is_attention, (&jamba,), jamba_attends),
        call_ensures(ZambaLayer::is_mamba, (&zamba,), zamba_recurs),
        call_ensures(ZambaLayer::is_attention, (&zamba,), zamba_attends),
    ensures
        griffin_recurs <==> griffin is RgLru,
        griffin_attends <==> griffin is Attention,
        jamba_recurs <==> jamba is Mamba,
        jamba_attends <==> jamba is Attention,
        zamba_recurs <==> zamba is Mamba,
        zamba_attends <==> zamba is Attention,
{
}

} // verus!
