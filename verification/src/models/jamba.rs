//! Jamba hybrid model: seven Mamba layers with mixture-of-experts FFN in front of each attention
//! layer.

use super::flash_attn::FlashAttentionState;
use super::llama::LlamaLayer;
use super::mamba::{MambaBlock, MambaState};
use super::steps::{
    attention_step, layer_seed, next_attention_step, seed_of_layer, seeds_fit, LayerStep,
};
use super::weights::{draws_add_up, drawn, seeded, state_after, weighs_all, SimpleRng, WeightRange};
use crate::traits::schedule::{
    linear_layers_come_first, periodic_type, LayerSchedule, LayerType,
};
use crate::traits::sequence::SequenceBlock;
use crate::traits::types::BlockConfig;
use vstd::prelude::*;

verus! {

/// Mixture of Experts FFN.
///
/// Each expert is a small SwiGLU FFN; the router selects two of them for each token.
pub struct MoEFFN {
    /// Number of experts.
    pub num_experts: usize,
    /// Hidden size (input/output dimension).
    pub hidden_size: usize,
    /// Expert intermediate size.
    pub expert_intermediate_size: usize,
    /// Router weights: [num_experts, hidden_size], row-major.
    pub w_router: Vec<u32>,
    /// Expert gate projections: num_experts x [expert_intermediate_size, hidden_size].
    pub w_expert_gate: Vec<Vec<u32>>,
    /// Expert up projections: num_experts x [expert_intermediate_size, hidden_size].
    pub w_expert_up: Vec<Vec<u32>>,
    /// Expert down projections: num_experts x [hidden_size, expert_intermediate_size].
    pub w_expert_down: Vec<Vec<u32>>,
}

/// Whether three projections are those of one expert: `n` weights each, drawn from state `s` on.
pub open spec fn is_expert<F: Fn(u32, WeightRange) -> u32>(
    to_weight: F,
    s: u64,
    range: WeightRange,
    n: nat,
    gate: Seq<u32>,
    up: Seq<u32>,
    down: Seq<u32>,
) -> bool {
    &&& gate.len() == n
    &&& up.len() == n
    &&& down.len() == n
    &&& drawn(to_weight, s, range, gate)
    &&& drawn(to_weight, state_after(s, n), range, up)
    &&& drawn(to_weight, state_after(s, n + n), range, down)
}

impl MoEFFN {
    /// Whether the weights of experts of these sizes can be counted on this machine.
    pub open spec fn sizes_fit(hidden_size: usize, num_experts: usize) -> bool {
        &&& hidden_size * 2 <= usize::MAX
        &&& num_experts * hidden_size <= usize::MAX
        &&& num_experts > 0 ==> hidden_size * 2 * hidden_size <= usize::MAX
    }

    /// Whether these experts have the given sizes and the weights that a seed gives: the router's
    /// first, then one expert's after the other's.
    pub open spec fn is_random<F: Fn(u32, WeightRange) -> u32>(
        self,
        hidden_size: usize,
        num_experts: usize,
        seed: u64,
        to_weight: F,
    ) -> bool {
        let range = WeightRange::Scaled { fan: hidden_size };
        let n = (hidden_size * 2 * hidden_size) as nat;
        let experts_start = state_after(seeded(seed), self.w_router@.len());
        &&& self.num_experts == num_experts
        &&& self.hidden_size == hidden_size
        &&& self.expert_intermediate_size == hidden_size * 2
        &&& self.w_router@.len() == num_experts * hidden_size
        &&& drawn(to_weight, seeded(seed), range, self.w_router@)
        &&& self.w_expert_gate@.len() == num_experts
        &&& self.w_expert_up@.len() == num_experts
        &&& self.w_expert_down@.len() == num_experts
        &&& forall|e: int|
            #![trigger self.w_expert_gate@[e]]
            #![trigger self.w_expert_up@[e]]
            #![trigger self.w_expert_down@[e]]
            0 <= e < num_experts ==> is_expert(
                to_weight,
                state_after(experts_start, (e * (3 * n)) as nat),
                range,
                n,
                self.w_expert_gate@[e]@,
                self.w_expert_up@[e]@,
                self.w_expert_down@[e]@,
            )
    }

    /// Create a MoE FFN with random weights.
    pub fn random<F: Fn(u32, WeightRange) -> u32>(
        hidden_size: usize,
        num_experts: usize,
        seed: u64,
        to_weight: &F,
    ) -> (r: MoEFFN)
        requires
            Self::sizes_fit(hidden_size, num_experts),
            weighs_all(*to_weight),
        ensures
            r.is_random(hidden_size, num_experts, seed, *to_weight),
    {
        // Smaller than standard FFN
        let expert_intermediate_size: usize = hidden_size * 2;
        let mut rng: SimpleRng = SimpleRng::new(seed);
        let range: WeightRange = WeightRange::Scaled { fan: hidden_size };
        let w_router: Vec<u32> = rng.draw(num_experts * hidden_size, range, to_weight);
        let ghost experts_start: u64 = rng.state;
        let ghost n: nat = (hidden_size * 2 * hidden_size) as nat;
        let mut w_expert_gate: Vec<Vec<u32>> = Vec::new();
        let mut w_expert_up: Vec<Vec<u32>> = Vec::new();
        let mut w_expert_down: Vec<Vec<u32>> = Vec::new();
        let mut e: usize = 0;
        assert(0 * (3 * n) == 0) by (nonlinear_arith);
        while e < num_experts
            invariant
                e <= num_experts,
                expert_intermediate_size == hidden_size * 2,
                n == hidden_size * 2 * hidden_size,
                num_experts > 0 ==> n <= usize::MAX,
                weighs_all(*to_weight),
                w_expert_gate.len() == e,
                w_expert_up.len() == e,
                w_expert_down.len() == e,
                rng.state == state_after(experts_start, (e * (3 * n)) as nat),
                forall|k: int|
                    #![trigger w_expert_gate@[k]]
                    #![trigger w_expert_up@[k]]
                    #![trigger w_expert_down@[k]]
                    0 <= k < e ==> is_expert(
                        *to_weight,
                        state_after(experts_start, (k * (3 * n)) as nat),
                        range,
                        n,
                        w_expert_gate@[k]@,
                        w_expert_up@[k]@,
                        w_expert_down@[k]@,
                    ),
            decreases num_experts - e,
        {
            let ghost s: u64 = rng.state;
            let gate: Vec<u32> = rng.draw(
                expert_intermediate_size * hidden_size,
                range,
                to_weight,
            );
            let up: Vec<u32> = rng.draw(expert_intermediate_size * hidden_size, range, to_weight);
            assert(hidden_size * expert_intermediate_size == expert_intermediate_size
                * hidden_size) by (nonlinear_arith);
            let down: Vec<u32> = rng.draw(
                hidden_size * expert_intermediate_size,
                range,
                to_weight,
            );
            proof {
                draws_add_up(s, n, n);
                draws_add_up(s, n + n, n);
                assert(0 <= e * (3 * n)) by (nonlinear_arith);
                assert((e + 1) * (3 * n) == e * (3 * n) + 3 * n) by (nonlinear_arith);
                draws_add_up(experts_start, (e * (3 * n)) as nat, 3 * n);
            }
            w_expert_gate.push(gate);
            w_expert_up.push(up);
            w_expert_down.push(down);
            e += 1;
        }
        MoEFFN {
            num_experts,
            hidden_size,
            expert_intermediate_size,
            w_router,
            w_expert_gate,
            w_expert_up,
            w_expert_down,
        }
    }
}

/// State for a single Jamba layer.
pub enum JambaLayerState {
    /// Mamba SSM state.
    Mamba(MambaState),
    /// Attention state (KV cache).
    Attention(FlashAttentionState),
}

impl Clone for JambaLayerState {
    fn clone(&self) -> (r: JambaLayerState)
        ensures
            match *self {
                JambaLayerState::Mamba(s) => r matches JambaLayerState::Mamba(t) && t.ssm_state@
                    == s.ssm_state@,
                JambaLayerState::Attention(s) => r matches JambaLayerState::Attention(t)
                    && t.kv_cache.model() == s.kv_cache.model() && (s.kv_cache.wf()
                    ==> t.kv_cache.wf()),
            },
    {
        match self {
            JambaLayerState::Mamba(s) => JambaLayerState::Mamba(s.clone()),
            JambaLayerState::Attention(s) => JambaLayerState::Attention(s.clone()),
        }
    }
}

/// A single Jamba layer.
///
/// Mamba layers use MambaBlock for the sequence mixing, plus a MoE FFN. Attention layers use a
/// full LlamaLayer (RMSNorm + Attention + FFN).
pub enum JambaLayer {
    /// Mamba SSM block + MoE FFN.
    Mamba { block: MambaBlock, moe: MoEFFN },
    /// Attention block.
    Attention(LlamaLayer),
}

impl JambaLayer {
    /// Whether the sizes of the layer's state can be computed on this machine.
    pub open spec fn state_fits(self) -> bool {
        match self {
            JambaLayer::Mamba { block, .. } => block.state_fits(),
            JambaLayer::Attention(llama) => llama.attention.state_fits(),
        }
    }

    /// Initialize state for this layer.
    pub fn init_state(&self, config: &BlockConfig) -> (r: JambaLayerState)
        requires
            self.state_fits(),
        ensures
            match *self {
                JambaLayer::Mamba { block, .. } => r matches JambaLayerState::Mamba(s)
                    && block.is_fresh(s),
                JambaLayer::Attention(llama) => r matches JambaLayerState::Attention(s)
                    && llama.attention.is_fresh(s),
            },
    {
        match self {
            JambaLayer::Mamba { block, .. } => JambaLayerState::Mamba(block.init_state(config)),
            JambaLayer::Attention(llama) => {
                JambaLayerState::Attention(llama.attention.init_state(config))
            },
        }
    }

    /// How this layer takes the next token; none where the state is that of another kind of layer.
    pub fn next_step(&self, state: &JambaLayerState) -> (r: Option<LayerStep>)
        ensures
            r == match (*self, *state) {
                (JambaLayer::Mamba { .. }, JambaLayerState::Mamba(_)) => Some(LayerStep::Recurrent),
                (JambaLayer::Attention(_), JambaLayerState::Attention(s)) => Some(
                    attention_step(s),
                ),
                _ => None,
            },
    {
        match (self, state) {
            (JambaLayer::Mamba { .. }, JambaLayerState::Mamba(_)) => Some(LayerStep::Recurrent),
            (JambaLayer::Attention(_), JambaLayerState::Attention(s)) => {
                Some(next_attention_step(s))
            },
            _ => None,
        }
    }

    /// Check whether this is a Mamba layer.
    pub fn is_mamba(&self) -> (r: bool)
        ensures
            r == (self is Mamba),
    {
        matches!(self, JambaLayer::Mamba { .. })
    }

    /// Check whether this is an Attention layer.
    pub fn is_attention(&self) -> (r: bool)
        ensures
            r == (self is Attention),
    {
        matches!(self, JambaLayer::Attention(_))
    }
}

/// Linear layers in front of each attention layer.
pub const JAMBA_RATIO: usize = 7;

/// How far the seed of a layer's experts is from the layer's own.
pub const MOE_SEED_STEP: u64 = 1000;

/// Whether `layer` is what layer `i` of a Jamba model is made as.
pub open spec fn is_jamba_layer<F: Fn(u32, WeightRange) -> u32>(
    layer: JambaLayer,
    i: int,
    hidden_size: usize,
    head_dim: usize,
    num_heads: usize,
    num_kv_heads: usize,
    d_state: usize,
    num_experts: usize,
    seed: u64,
    to_weight: F,
) -> bool {
    let own_seed = layer_seed(seed, i);
    match periodic_type(JAMBA_RATIO as nat, i) {
        LayerType::Linear => {
            &&& layer matches JambaLayer::Mamba { block, moe }
            &&& block.is_random(hidden_size, d_state, own_seed as u64, to_weight)
            &&& moe.is_random(
                hidden_size,
                num_experts,
                (own_seed + MOE_SEED_STEP) as u64,
                to_weight,
            )
        },
        LayerType::Attention => layer matches JambaLayer::Attention(llama) && llama.is_random(
            hidden_size,
            head_dim,
            num_heads,
            num_kv_heads,
            own_seed as u64,
            to_weight,
        ),
    }
}

/// Build a full Jamba model's layers using the 7:1 Mamba:Attention schedule.
pub fn build_jamba_layers<F: Fn(u32, WeightRange) -> u32>(
    hidden_size: usize,
    head_dim: usize,
    num_heads: usize,
    num_kv_heads: usize,
    num_layers: usize,
    d_state: usize,
    num_experts: usize,
    seed: u64,
    to_weight: &F,
) -> (r: (Vec<JambaLayer>, LayerSchedule))
    requires
        num_layers > 0 ==> MambaBlock::sizes_fit(hidden_size, d_state) && MoEFFN::sizes_fit(
            hidden_size,
            num_experts,
        ),
        num_layers > JAMBA_RATIO ==> LlamaLayer::sizes_fit(
            hidden_size,
            head_dim,
            num_heads,
            num_kv_heads,
        ),
        seeds_fit(seed, num_layers, JAMBA_RATIO as nat, MOE_SEED_STEP as int, 1),
        weighs_all(*to_weight),
    ensures
        r.1.types@ == Seq::new(num_layers as nat, |i: int| periodic_type(JAMBA_RATIO as nat, i)),
        r.0.len() == num_layers,
        forall|i: int|
            0 <= i < num_layers ==> is_jamba_layer(
                #[trigger] r.0@[i],
                i,
                hidden_size,
                head_dim,
                num_heads,
                num_kv_heads,
                d_state,
                num_experts,
                seed,
                *to_weight,
            ),
{
    let schedule: LayerSchedule = LayerSchedule::periodic(num_layers, JAMBA_RATIO);
    let mut layers: Vec<JambaLayer> = Vec::new();
    let mut i: usize = 0;
    while i < num_layers
        invariant
            i <= num_layers,
            layers.len() == i,
            schedule.types@ == Seq::new(
                num_layers as nat,
                |k: int| periodic_type(JAMBA_RATIO as nat, k),
            ),
            num_layers > 0 ==> MambaBlock::sizes_fit(hidden_size, d_state) && MoEFFN::sizes_fit(
                hidden_size,
                num_experts,
            ),
            num_layers > JAMBA_RATIO ==> LlamaLayer::sizes_fit(
                hidden_size,
                head_dim,
                num_heads,
                num_kv_heads,
            ),
            seeds_fit(seed, num_layers, JAMBA_RATIO as nat, MOE_SEED_STEP as int, 1),
            weighs_all(*to_weight),
            forall|k: int|
                0 <= k < i ==> is_jamba_layer(
                    #[trigger] layers@[k],
                    k,
                    hidden_size,
                    head_dim,
                    num_heads,
                    num_kv_heads,
                    d_state,
                    num_experts,
                    seed,
                    *to_weight,
                ),
        decreases num_layers - i,
    {
        assert(schedule.types@[i as int] == periodic_type(JAMBA_RATIO as nat, i as int));
        assert(layer_seed(seed, i as int) <= u64::MAX);
        proof {
            if i < JAMBA_RATIO {
                linear_layers_come_first(JAMBA_RATIO as nat, i as int);
            }
        }
        let own_seed: u64 = seed_of_layer(seed, i);
        match schedule.types[i] {
            LayerType::Linear => {
                let block: MambaBlock = MambaBlock::random(
                    hidden_size,
                    d_state,
                    own_seed,
                    to_weight,
                );
                let moe: MoEFFN = MoEFFN::random(
                    hidden_size,
                    num_experts,
                    own_seed + MOE_SEED_STEP,
                    to_weight,
                );
                layers.push(JambaLayer::Mamba { block, moe });
            },
            LayerType::Attention => {
                let llama: LlamaLayer = LlamaLayer::random(
                    hidden_size,
                    head_dim,
                    num_heads,
                    num_kv_heads,
                    own_seed,
                    to_weight,
                );
                layers.push(JambaLayer::Attention(llama));
            },
        }
        i += 1;
    }
    (layers, schedule)
}

} // verus!
