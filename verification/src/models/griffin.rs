//! Griffin hybrid model: two RG-LRU layers in front of each attention layer.

use super::flash_attn::FlashAttentionState;
use super::llama::LlamaLayer;
use super::rg_lru::{RgLruBlock, RgLruState};
use super::steps::{
    attention_step, layer_seed, next_attention_step, seed_of_layer, seeds_fit, LayerStep,
};
use super::weights::{weighs_all, WeightRange};
use crate::traits::schedule::{
    linear_layers_come_first, periodic_type, LayerSchedule, LayerType,
};
use crate::traits::sequence::SequenceBlock;
use crate::traits::types::BlockConfig;
use vstd::prelude::*;

verus! {

/// State for a single Griffin layer.
pub enum GriffinLayerState {
    /// RG-LRU recurrent state.
    RgLru(RgLruState),
    /// Attention state (KV cache).
    Attention(FlashAttentionState),
}

impl Clone for GriffinLayerState {
    fn clone(&self) -> (r: GriffinLayerState)
        ensures
            match *self {
                GriffinLayerState::RgLru(s) => r matches GriffinLayerState::RgLru(t) && t.hidden@
                    == s.hidden@,
                GriffinLayerState::Attention(s) => r matches GriffinLayerState::Attention(t)
                    && t.kv_cache.model() == s.kv_cache.model() && (s.kv_cache.wf()
                    ==> t.kv_cache.wf()),
            },
    {
        match self {
            GriffinLayerState::RgLru(s) => GriffinLayerState::RgLru(s.clone()),
            GriffinLayerState::Attention(s) => GriffinLayerState::Attention(s.clone()),
        }
    }
}

/// A single Griffin layer.
///
/// RG-LRU layers use RgLruBlock for sequence mixing. Attention layers use a full LlamaLayer
/// (RMSNorm + Attention + FFN).
pub enum GriffinLayer {
    /// RG-LRU block.
    RgLru(RgLruBlock),
    /// Local attention block.
    Attention(LlamaLayer),
}

impl GriffinLayer {
    /// Whether the sizes of the layer's state can be computed on this machine.
    pub open spec fn state_fits(self) -> bool {
        match self {
            GriffinLayer::RgLru(block) => block.state_fits(),
            GriffinLayer::Attention(llama) => llama.attention.state_fits(),
        }
    }

    /// Initialize state for this layer.
    pub fn init_state(&self, config: &BlockConfig) -> (r: GriffinLayerState)
        requires
            self.state_fits(),
        ensures
            match *self {
                GriffinLayer::RgLru(block) => r matches GriffinLayerState::RgLru(s)
                    && block.is_fresh(s),
                GriffinLayer::Attention(llama) => r matches GriffinLayerState::Attention(s)
                    && llama.attention.is_fresh(s),
            },
    {
        match self {
            GriffinLayer::RgLru(block) => GriffinLayerState::RgLru(block.init_state(config)),
            GriffinLayer::Attention(llama) => {
                GriffinLayerState::Attention(llama.attention.init_state(config))
            },
        }
    }

    /// How this layer takes the next token; none where the state is that of another kind of layer.
    pub fn next_step(&self, state: &GriffinLayerState) -> (r: Option<LayerStep>)
        ensures
            r == match (*self, *state) {
                (GriffinLayer::RgLru(_), GriffinLayerState::RgLru(_)) => Some(LayerStep::Recurrent),
                (GriffinLayer::Attention(_), GriffinLayerState::Attention(s)) => Some(
                    attention_step(s),
                ),
                _ => None,
            },
    {
        match (self, state) {
            (GriffinLayer::RgLru(_), GriffinLayerState::RgLru(_)) => Some(LayerStep::Recurrent),
            (GriffinLayer::Attention(_), GriffinLayerState::Attention(s)) => {
                Some(next_attention_step(s))
            },
            _ => None,
        }
    }

    /// Check whether this is an RG-LRU layer.
    pub fn is_rglru(&self) -> (r: bool)
        ensures
            r == (self is RgLru),
    {
        matches!(self, GriffinLayer::RgLru(_))
    }

    /// Check whether this is an Attention layer.
    pub fn is_attention(&self) -> (r: bool)
        ensures
            r == (self is Attention),
    {
        matches!(self, GriffinLayer::Attention(_))
    }
}

/// Linear layers in front of each attention layer.
pub const GRIFFIN_RATIO: usize = 2;

/// Whether `layer` is what layer `i` of a Griffin model is made as.
pub open spec fn is_griffin_layer<F: Fn(u32, WeightRange) -> u32>(
    layer: GriffinLayer,
    i: int,
    hidden_size: usize,
    head_dim: usize,
    num_heads: usize,
    num_kv_heads: usize,
    seed: u64,
    to_weight: F,
) -> bool {
    match periodic_type(GRIFFIN_RATIO as nat, i) {
        LayerType::Linear => layer matches GriffinLayer::RgLru(block) && block.is_random(
            hidden_size,
            layer_seed(seed, i) as u64,
            to_weight,
        ),
        LayerType::Attention => layer matches GriffinLayer::Attention(llama) && llama.is_random(
            hidden_size,
            head_dim,
            num_heads,
            num_kv_heads,
            layer_seed(seed, i) as u64,
            to_weight,
        ),
    }
}

/// Build a full Griffin model's layers using the 2:1 RG-LRU:Attention schedule.
pub fn build_griffin_layers<F: Fn(u32, WeightRange) -> u32>(
    hidden_size: usize,
    head_dim: usize,
    num_heads: usize,
    num_kv_heads: usize,
    num_layers: usize,
    seed: u64,
    to_weight: &F,
) -> (r: (Vec<GriffinLayer>, LayerSchedule))
    requires
        num_layers > 0 ==> hidden_size * hidden_size <= usize::MAX,
        num_layers > GRIFFIN_RATIO ==> LlamaLayer::sizes_fit(
            hidden_size,
            head_dim,
            num_heads,
            num_kv_heads,
        ),
        seeds_fit(seed, num_layers, GRIFFIN_RATIO as nat, 0, 1),
        weighs_all(*to_weight),
    ensures
        r.1.types@ == Seq::new(
            num_layers as nat,
            |i: int| periodic_type(GRIFFIN_RATIO as nat, i),
        ),
        r.0.len() == num_layers,
        forall|i: int|
            0 <= i < num_layers ==> is_griffin_layer(
                #[trigger] r.0@[i],
                i,
                hidden_size,
                head_dim,
                num_heads,
                num_kv_heads,
                seed,
                *to_weight,
            ),
{
    let schedule: LayerSchedule = LayerSchedule::periodic(num_layers, GRIFFIN_RATIO);
    let mut layers: Vec<GriffinLayer> = Vec::new();
    let mut i: usize = 0;
    while i < num_layers
        invariant
            i <= num_layers,
            layers.len() == i,
            schedule.types@ == Seq::new(
                num_layers as nat,
                |k: int| periodic_type(GRIFFIN_RATIO as nat, k),
            ),
            num_layers > 0 ==> hidden_size * hidden_size <= usize::MAX,
            num_layers > GRIFFIN_RATIO ==> LlamaLayer::sizes_fit(
                hidden_size,
                head_dim,
                num_heads,
                num_kv_heads,
            ),
            seeds_fit(seed, num_layers, GRIFFIN_RATIO as nat, 0, 1),
            weighs_all(*to_weight),
            forall|k: int|
                0 <= k < i ==> is_griffin_layer(
                    #[trigger] layers@[k],
                    k,
                    hidden_size,
                    head_dim,
                    num_heads,
                    num_kv_heads,
                    seed,
                    *to_weight,
                ),
        decreases num_layers - i,
    {
        assert(schedule.types@[i as int] == periodic_type(GRIFFIN_RATIO as nat, i as int));
        assert(layer_seed(seed, i as int) <= u64::MAX);
        proof {
            if i < GRIFFIN_RATIO {
                linear_layers_come_first(GRIFFIN_RATIO as nat, i as int);
            }
        }
        let own_seed: u64 = seed_of_layer(seed, i);
        match schedule.types[i] {
            LayerType::Linear => {
                let block: RgLruBlock = RgLruBlock::random(hidden_size, own_seed, to_weight);
                layers.push(GriffinLayer::RgLru(block));
            },
            LayerType::Attention => {
                let llama: LlamaLayer = LlamaLayer::random(
                    hidden_size,
                    head_dim,
                    num_heads,
                    num_kv_heads,
                    own_seed,
                    to_weight,
                );
                layers.push(GriffinLayer::Attention(llama));
            },
        }
        i += 1;
    }
    (layers, schedule)
}

} // verus!
