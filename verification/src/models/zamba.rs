//! Zamba hybrid model: six Mamba layers in front of each attention position, where all attention
//! positions share one block and each has a low-rank projector of its own.

use super::flash_attn::FlashAttentionState;
use super::llama::{LlamaLayer, ONE};
use super::mamba::{MambaBlock, MambaState};
use super::steps::{
    attention_step, layer_seed, next_attention_step, seed_of_layer, seeds_fit, LayerStep,
};
use super::weights::{drawn, seeded, state_after, weighs_all, SimpleRng, WeightRange};
use crate::traits::schedule::{count_of, periodic_type, LayerSchedule, LayerType};
use crate::traits::sequence::SequenceBlock;
use crate::traits::types::BlockConfig;
use vstd::prelude::*;

verus! {

/// Low-rank projector: `output = input + scale * B * (A * input)`.
pub struct LoraProjector {
    /// Hidden size (input/output dimension).
    pub hidden_size: usize,
    /// Rank of the projection.
    pub rank: usize,
    /// Down projection A: [rank, hidden_size], row-major.
    pub w_a: Vec<u32>,
    /// Up projection B: [hidden_size, rank], row-major.
    pub w_b: Vec<u32>,
    /// Scale of the projection.
    pub scale: u32,
}

impl LoraProjector {
    /// Whether this projector has the given sizes and the weights that a seed gives; the up
    /// projection starts near zero.
    pub open spec fn is_random<F: Fn(u32, WeightRange) -> u32>(
        self,
        hidden_size: usize,
        rank: usize,
        seed: u64,
        to_weight: F,
    ) -> bool {
        &&& self.hidden_size == hidden_size
        &&& self.rank == rank
        &&& self.scale == ONE
        &&& self.w_a@.len() == rank * hidden_size
        &&& self.w_b@.len() == rank * hidden_size
        &&& drawn(to_weight, seeded(seed), WeightRange::Scaled { fan: rank }, self.w_a@)
        &&& drawn(
            to_weight,
            state_after(seeded(seed), self.w_a@.len()),
            WeightRange::NearZero,
            self.w_b@,
        )
    }

    /// Create a projector with random weights.
    pub fn random<F: Fn(u32, WeightRange) -> u32>(
        hidden_size: usize,
        rank: usize,
        seed: u64,
        to_weight: &F,
    ) -> (r: LoraProjector)
        requires
            rank * hidden_size <= usize::MAX,
            weighs_all(*to_weight),
        ensures
            r.is_random(hidden_size, rank, seed, *to_weight),
    {
        let mut rng: SimpleRng = SimpleRng::new(seed);
        let w_a: Vec<u32> = rng.draw(
            rank * hidden_size,
            WeightRange::Scaled { fan: rank },
            to_weight,
        );
        assert(hidden_size * rank == rank * hidden_size) by (nonlinear_arith);
        let w_b: Vec<u32> = rng.draw(hidden_size * rank, WeightRange::NearZero, to_weight);
        LoraProjector { hidden_size, rank, w_a, w_b, scale: ONE }
    }
}

/// State for a single Zamba layer.
pub enum ZambaLayerState {
    /// Mamba SSM state.
    Mamba(MambaState),
    /// Attention state (KV cache) of this position.
    Attention(FlashAttentionState),
}

impl Clone for ZambaLayerState {
    fn clone(&self) -> (r: ZambaLayerState)
        ensures
            match *self {
                ZambaLayerState::Mamba(s) => r matches ZambaLayerState::Mamba(t) && t.ssm_state@
                    == s.ssm_state@,
                ZambaLayerState::Attention(s) => r matches ZambaLayerState::Attention(t)
                    && t.kv_cache.model() == s.kv_cache.model() && (s.kv_cache.wf()
                    ==> t.kv_cache.wf()),
            },
    {
        match self {
            ZambaLayerState::Mamba(s) => ZambaLayerState::Mamba(s.clone()),
            ZambaLayerState::Attention(s) => ZambaLayerState::Attention(s.clone()),
        }
    }
}

/// A single Zamba layer.
pub enum ZambaLayer {
    /// Mamba SSM block.
    Mamba(MambaBlock),
    /// A use of the shared attention block.
    Attention {
        /// Which of the projectors belongs to this position.
        attn_index: usize,
    },
}

impl ZambaLayer {
    /// Check whether this is a Mamba layer.
    pub fn is_mamba(&self) -> (r: bool)
        ensures
            r == (self is Mamba),
    {
        matches!(self, ZambaLayer::Mamba(_))
    }

    /// Check whether this is an Attention layer.
    pub fn is_attention(&self) -> (r: bool)
        ensures
            r == (self is Attention),
    {
        matches!(self, ZambaLayer::Attention { .. })
    }
}

/// A full Zamba model.
pub struct ZambaModel {
    /// Layers in order.
    pub layers: Vec<ZambaLayer>,
    /// The attention block that all attention positions share.
    pub shared_attention: LlamaLayer,
    /// One projector for each attention position.
    pub lora_projectors: Vec<LoraProjector>,
    /// Layer schedule.
    pub schedule: LayerSchedule,
}

impl ZambaModel {
    /// Whether the sizes of the layers' states can be computed on this machine.
    pub open spec fn states_fit(self) -> bool {
        forall|i: int|
            0 <= i < self.layers@.len() ==> match #[trigger] self.layers@[i] {
                ZambaLayer::Mamba(block) => block.state_fits(),
                ZambaLayer::Attention { .. } => self.shared_attention.attention.state_fits(),
            }
    }

    /// Whether a state is that of layer `i` with no tokens yet.
    pub open spec fn is_fresh(self, i: int, state: ZambaLayerState) -> bool {
        match self.layers@[i] {
            ZambaLayer::Mamba(block) => state matches ZambaLayerState::Mamba(s) && block.is_fresh(
                s,
            ),
            ZambaLayer::Attention { .. } => state matches ZambaLayerState::Attention(s)
                && self.shared_attention.attention.is_fresh(s),
        }
    }

    /// Initialize states for all layers.
    pub fn init_states(&self, config: &BlockConfig) -> (r: Vec<ZambaLayerState>)
        requires
            self.states_fit(),
        ensures
            r.len() == self.layers.len(),
            forall|i: int| 0 <= i < r.len() ==> self.is_fresh(i, #[trigger] r@[i]),
    {
        let mut states: Vec<ZambaLayerState> = Vec::new();
        let mut i: usize = 0;
        while i < self.layers.len()
            invariant
                i <= self.layers.len(),
                self.states_fit(),
                states.len() == i,
                forall|k: int| 0 <= k < i ==> self.is_fresh(k, #[trigger] states@[k]),
            decreases self.layers.len() - i,
        {
            let state: ZambaLayerState = match &self.layers[i] {
                ZambaLayer::Mamba(block) => ZambaLayerState::Mamba(block.init_state(config)),
                ZambaLayer::Attention { .. } => {
                    ZambaLayerState::Attention(self.shared_attention.attention.init_state(config))
                },
            };
            states.push(state);
            i += 1;
        }
        states
    }

    /// How a layer takes the next token; none where the state is that of another kind of layer.
    pub fn next_step(&self, layer_index: usize, state: &ZambaLayerState) -> (r: Option<LayerStep>)
        requires
            layer_index < self.layers.len(),
        ensures
            r == match (self.layers@[layer_index as int], *state) {
                (ZambaLayer::Mamba(_), ZambaLayerState::Mamba(_)) => Some(LayerStep::Recurrent),
                (ZambaLayer::Attention { .. }, ZambaLayerState::Attention(s)) => Some(
                    attention_step(s),
                ),
                _ => None,
            },
    {
        match (&self.layers[layer_index], state) {
            (ZambaLayer::Mamba(_), ZambaLayerState::Mamba(_)) => Some(LayerStep::Recurrent),
            (ZambaLayer::Attention { .. }, ZambaLayerState::Attention(s)) => {
                Some(next_attention_step(s))
            },
            _ => None,
        }
    }
}

/// Linear layers in front of each attention position.
pub const ZAMBA_RATIO: usize = 6;

/// How far the seed of the shared attention block is from the model's.
pub const SHARED_SEED_STEP: u64 = 9999;

/// How far the seed of the first projector is from the model's.
pub const LORA_SEED_STEP: u64 = 5000;

/// How far the seed of each projector is from that of the one before.
pub const LORA_SEED_STRIDE: u64 = 37;

/// The schedule of a Zamba model.
pub open spec fn zamba_types(num_layers: nat) -> Seq<LayerType> {
    Seq::new(num_layers, |i: int| periodic_type(ZAMBA_RATIO as nat, i))
}

/// How many attention positions there are in front of layer `i`.
pub open spec fn positions_before(i: int) -> nat {
    count_of(zamba_types(i as nat), LayerType::Attention)
}

/// The seed of projector `a`.
pub open spec fn projector_seed(seed: u64, a: int) -> int {
    seed + LORA_SEED_STEP + a * LORA_SEED_STRIDE
}

/// Whether `layer` is what layer `i` of a Zamba model is made as.
pub open spec fn is_zamba_layer<F: Fn(u32, WeightRange) -> u32>(
    layer: ZambaLayer,
    i: int,
    hidden_size: usize,
    d_state: usize,
    seed: u64,
    to_weight: F,
) -> bool {
    match periodic_type(ZAMBA_RATIO as nat, i) {
        LayerType::Linear => layer matches ZambaLayer::Mamba(block) && block.is_random(
            hidden_size,
            d_state,
            layer_seed(seed, i) as u64,
            to_weight,
        ),
        LayerType::Attention => layer matches ZambaLayer::Attention { attn_index } && attn_index
            == positions_before(i),
    }
}

/// There are no more attention positions in front of a layer than layers.
proof fn positions_are_bounded(i: int)
    requires
        0 <= i,
    ensures
        positions_before(i) <= i,
        positions_before(i + 1) == positions_before(i) + (if periodic_type(ZAMBA_RATIO as nat, i)
            == LayerType::Attention {
            1nat
        } else {
            0
        }),
    decreases i,
{
    let next: Seq<LayerType> = zamba_types((i + 1) as nat);
    assert(next.drop_last() =~= zamba_types(i as nat));
    assert(next.last() == periodic_type(ZAMBA_RATIO as nat, i));
    if i > 0 {
        positions_are_bounded(i - 1);
    } else {
        assert(zamba_types(0) =~= Seq::empty());
    }
}

/// Build a full Zamba model using the 6:1 Mamba:Attention schedule.
pub fn build_zamba_model<F: Fn(u32, WeightRange) -> u32>(
    hidden_size: usize,
    head_dim: usize,
    num_heads: usize,
    num_kv_heads: usize,
    num_layers: usize,
    d_state: usize,
    lora_rank: usize,
    seed: u64,
    to_weight: &F,
) -> (r: ZambaModel)
    requires
        num_layers > 0 ==> MambaBlock::sizes_fit(hidden_size, d_state),
        LlamaLayer::sizes_fit(hidden_size, head_dim, num_heads, num_kv_heads),
        positions_before(num_layers as int) > 0 ==> lora_rank * hidden_size <= usize::MAX,
        seeds_fit(seed, num_layers, ZAMBA_RATIO as nat, 0, 0),
        seed + SHARED_SEED_STEP < u64::MAX,
        forall|a: int|
            0 <= a < positions_before(num_layers as int) ==> #[trigger] projector_seed(seed, a)
                <= u64::MAX,
        weighs_all(*to_weight),
    ensures
        r.schedule.types@ == zamba_types(num_layers as nat),
        r.shared_attention.is_random(
            hidden_size,
            head_dim,
            num_heads,
            num_kv_heads,
            (seed + SHARED_SEED_STEP) as u64,
            *to_weight,
        ),
        r.lora_projectors.len() == positions_before(num_layers as int),
        forall|a: int|
            0 <= a < r.lora_projectors.len() ==> (#[trigger] r.lora_projectors@[a]).is_random(
                hidden_size,
                lora_rank,
                projector_seed(seed, a) as u64,
                *to_weight,
            ),
        r.layers.len() == num_layers,
        forall|i: int|
            0 <= i < num_layers ==> is_zamba_layer(
                #[trigger] r.layers@[i],
                i,
                hidden_size,
                d_state,
                seed,
                *to_weight,
            ),
{
    let schedule: LayerSchedule = LayerSchedule::periodic(num_layers, ZAMBA_RATIO);
    assert(schedule.types@ == zamba_types(num_layers as nat));
    let attn_count: usize = schedule.attention_count();

    // The shared attention block
    let shared_attention: LlamaLayer = LlamaLayer::random(
        hidden_size,
        head_dim,
        num_heads,
        num_kv_heads,
        seed + SHARED_SEED_STEP,
        to_weight,
    );

    // One projector per attention position
    let mut lora_projectors: Vec<LoraProjector> = Vec::new();
    let mut a: usize = 0;
    while a < attn_count
        invariant
            a <= attn_count,
            attn_count == positions_before(num_layers as int),
            attn_count > 0 ==> lora_rank * hidden_size <= usize::MAX,
            forall|k: int| 0 <= k < attn_count ==> #[trigger] projector_seed(seed, k) <= u64::MAX,
            weighs_all(*to_weight),
            lora_projectors.len() == a,
            forall|k: int|
                0 <= k < a ==> (#[trigger] lora_projectors@[k]).is_random(
                    hidden_size,
                    lora_rank,
                    projector_seed(seed, k) as u64,
                    *to_weight,
                ),
        decreases attn_count - a,
    {
        assert(projector_seed(seed, a as int) <= u64::MAX);
        let projector: LoraProjector = LoraProjector::random(
            hidden_size,
            lora_rank,
            seed + LORA_SEED_STEP + (a as u64) * LORA_SEED_STRIDE,
            to_weight,
        );
        lora_projectors.push(projector);
        a += 1;
    }

    // Layers
    let mut layers: Vec<ZambaLayer> = Vec::new();
    let mut attn_index: usize = 0;
    let mut i: usize = 0;
    assert(zamba_types(0) =~= Seq::empty());
    while i < num_layers
        invariant
            i <= num_layers,
            layers.len() == i,
            attn_index == positions_before(i as int),
            schedule.types@ == zamba_types(num_layers as nat),
            num_layers > 0 ==> MambaBlock::sizes_fit(hidden_size, d_state),
            seeds_fit(seed, num_layers, ZAMBA_RATIO as nat, 0, 0),
            weighs_all(*to_weight),
            forall|k: int|
                0 <= k < i ==> is_zamba_layer(
                    #[trigger] layers@[k],
                    k,
                    hidden_size,
                    d_state,
                    seed,
                    *to_weight,
                ),
        decreases num_layers - i,
    {
        proof {
            positions_are_bounded(i as int);
        }
        assert(schedule.types@[i as int] == periodic_type(ZAMBA_RATIO as nat, i as int));
        assert(layer_seed(seed, i as int) <= u64::MAX);
        let own_seed: u64 = seed_of_layer(seed, i);
        match schedule.types[i] {
            LayerType::Linear => {
                let block: MambaBlock = MambaBlock::random(
                    hidden_size,
                    d_state,
                    own_seed,
                    to_weight,
                );
                layers.push(ZambaLayer::Mamba(block));
            },
            LayerType::Attention => {
                layers.push(ZambaLayer::Attention { attn_index });
                attn_index += 1;
            },
        }
        i += 1;
    }
    ZambaModel { layers, shared_attention, lora_projectors, schedule }
}

/// Every attention position of a model has a projector of its own: positions count up from zero
/// without a gap, and end where the projectors do.
pub proof fn positions_have_projectors(num_layers: nat, i: int, j: int)
    requires
        0 <= i < j <= num_layers,
        periodic_type(ZAMBA_RATIO as nat, i) == LayerType::Attention,
    ensures
        positions_before(i) < positions_before(j) <= positions_before(num_layers as int),
    decreases num_layers - i,
{
    positions_are_bounded(i);
    positions_grow(i + 1, j);
    positions_grow(j, num_layers as int);
}

/// Later layers have at least as many attention positions in front of them.
proof fn positions_grow(i: int, j: int)
    requires
        0 <= i <= j,
    ensures
        positions_before(i) <= positions_before(j),
    decreases j - i,
{
    if i < j {
        positions_are_bounded(i);
        positions_grow(i + 1, j);
    }
}

} // verus!
