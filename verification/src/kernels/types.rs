//! Parameter structs that the kernels read.
//!
//! A kernel reads each struct as sixteen 32-bit words, in the order of the fields. Floats are
//! held by their bit patterns.

use vstd::prelude::*;

verus! {

/// Attention kernel parameters.
#[derive(Debug, Clone, Copy, PartialEq, Eq, Structural)]
pub struct AttentionParams {
    /// Sequence length N
    pub seq_len: u32,
    /// Head dimension D
    pub head_dim: u32,
    /// Number of Q heads
    pub num_heads: u32,
    /// Number of KV heads (== num_heads for MHA, < for GQA)
    pub num_kv_heads: u32,
    /// Tile rows (queries)
    pub block_r: u32,
    /// Tile columns (keys)
    pub block_c: u32,
    /// Scaling factor: 1/sqrt(D)
    pub scale: u32,
    /// Variant selector: 0=standard, 1=RoPE, 2=ALiBi, 3=GQA
    pub variant: u32,
    /// Tokens per page (paged attention)
    pub page_size: u32,
    /// Total pages allocated (paged attention)
    pub num_pages: u32,
    /// Maximum context length (paged attention)
    pub max_context_len: u32,
    /// Partitioned reduce count (paged attention)
    pub num_partitions: u32,
    /// Explicit padding
    pub _pad0: u32,
    /// Explicit padding
    pub _pad1: u32,
    /// Explicit padding
    pub _pad2: u32,
    /// Explicit padding
    pub _pad3: u32,
}

/// The parameters of plain attention over 256 tokens with one head of 64 dimensions.
pub open spec fn default_attention() -> AttentionParams {
    AttentionParams {
        seq_len: 256,
        head_dim: 64,
        num_heads: 1,
        num_kv_heads: 1,
        block_r: 16,
        block_c: 64,
        // one eighth
        scale: 0x3E00_0000,
        variant: 0,
        page_size: 16,
        num_pages: 0,
        max_context_len: 0,
        num_partitions: 1,
        _pad0: 0,
        _pad1: 0,
        _pad2: 0,
        _pad3: 0,
    }
}

impl Default for AttentionParams {
    fn default() -> (r: AttentionParams)
        ensures
            r == default_attention(),
    {
        AttentionParams {
            seq_len: 256,
            head_dim: 64,
            num_heads: 1,
            num_kv_heads: 1,
            block_r: 16,
            block_c: 64,
            scale: 0x3E00_0000,
            variant: 0,
            page_size: 16,
            num_pages: 0,
            max_context_len: 0,
            num_partitions: 1,
            _pad0: 0,
            _pad1: 0,
            _pad2: 0,
            _pad3: 0,
        }
    }
}

impl AttentionParams {
    /// The words that a kernel reads: the fields in order.
    pub open spec fn words(self) -> Seq<u32> {
        seq![
            self.seq_len,
            self.head_dim,
            self.num_heads,
            self.num_kv_heads,
            self.block_r,
            self.block_c,
            self.scale,
            self.variant,
            self.page_size,
            self.num_pages,
            self.max_context_len,
            self.num_partitions,
            self._pad0,
            self._pad1,
            self._pad2,
            self._pad3,
        ]
    }

    /// Create params for standard (non-paged) flash attention.
    /// `scale` is the bit pattern of 1/sqrt(head_dim).
    pub fn flash(seq_len: u32, head_dim: u32, num_heads: u32, scale: u32) -> (r: AttentionParams)
        ensures
            r == (AttentionParams {
                seq_len,
                head_dim,
                num_heads,
                num_kv_heads: num_heads,
                scale,
                ..default_attention()
            }),
    {
        let d: AttentionParams = AttentionParams::default();
        AttentionParams { seq_len, head_dim, num_heads, num_kv_heads: num_heads, scale, ..d }
    }

    /// Create params for GQA (grouped-query attention).
    /// `scale` is the bit pattern of 1/sqrt(head_dim).
    pub fn gqa(seq_len: u32, head_dim: u32, num_heads: u32, num_kv_heads: u32, scale: u32) -> (r:
        AttentionParams)
        ensures
            r == (AttentionParams {
                seq_len,
                head_dim,
                num_heads,
                num_kv_heads,
                scale,
                variant: 3,
                ..default_attention()
            }),
    {
        let d: AttentionParams = AttentionParams::default();
        AttentionParams { seq_len, head_dim, num_heads, num_kv_heads, scale, variant: 3, ..d }
    }

    /// Create params for paged attention.
    /// `scale` is the bit pattern of 1/sqrt(head_dim).
    pub fn paged(
        seq_len: u32,
        head_dim: u32,
        num_heads: u32,
        page_size: u32,
        num_pages: u32,
        max_context_len: u32,
        num_partitions: u32,
        scale: u32,
    ) -> (r: AttentionParams)
        ensures
            r == (AttentionParams {
                seq_len,
                head_dim,
                num_heads,
                num_kv_heads: num_heads,
                scale,
                page_size,
                num_pages,
                max_context_len,
                num_partitions,
                ..default_attention()
            }),
    {
        let d: AttentionParams = AttentionParams::default();
        AttentionParams {
            seq_len,
            head_dim,
            num_heads,
            num_kv_heads: num_heads,
            scale,
            page_size,
            num_pages,
            max_context_len,
            num_partitions,
            ..d
        }
    }

    /// The words that a kernel reads.
    pub fn to_words(&self) -> (r: Vec<u32>)
        ensures
            r@ == self.words(),
    {
        let r: Vec<u32> = vec![
            self.seq_len,
            self.head_dim,
            self.num_heads,
            self.num_kv_heads,
            self.block_r,
            self.block_c,
            self.scale,
            self.variant,
            self.page_size,
            self.num_pages,
            self.max_context_len,
            self.num_partitions,
            self._pad0,
            self._pad1,
            self._pad2,
            self._pad3,
        ];
        assert(r@ =~= self.words());
        r
    }
}

/// Layer-level parameters for transformer block dispatch.
#[derive(Debug, Clone, Copy, PartialEq, Eq, Structural)]
pub struct LayerParams {
    /// Model hidden dimension (e.g. 4096)
    pub hidden_dim: u32,
    /// FFN intermediate dimension (e.g. 11008)
    pub intermediate_dim: u32,
    /// Number of attention heads
    pub num_heads: u32,
    /// Number of KV heads (GQA)
    pub num_kv_heads: u32,
    /// Per-head dimension
    pub head_dim: u32,
    /// Vocabulary size for embedding
    pub vocab_size: u32,
    /// Current layer index
    pub layer_idx: u32,
    /// Total number of layers
    pub num_layers: u32,
    /// RMSNorm epsilon (e.g. 1e-5)
    pub rms_norm_eps: u32,
    /// RoPE base frequency (e.g. 10000.0)
    pub rope_theta: u32,
    /// Current sequence length
    pub seq_len: u32,
    /// Batch size
    pub batch_size: u32,
    /// Explicit padding
    pub _pad0: u32,
    /// Explicit padding
    pub _pad1: u32,
    /// Explicit padding
    pub _pad2: u32,
    /// Explicit padding
    pub _pad3: u32,
}

/// The parameters of a layer of a model with 32 layers of 4096 dimensions.
pub open spec fn default_layer() -> LayerParams {
    LayerParams {
        hidden_dim: 4096,
        intermediate_dim: 11008,
        num_heads: 32,
        num_kv_heads: 32,
        head_dim: 128,
        vocab_size: 32000,
        layer_idx: 0,
        num_layers: 32,
        // one hundred-thousandth
        rms_norm_eps: 0x3727_C5AC,
        // ten thousand
        rope_theta: 0x461C_4000,
        seq_len: 256,
        batch_size: 1,
        _pad0: 0,
        _pad1: 0,
        _pad2: 0,
        _pad3: 0,
    }
}

impl Default for LayerParams {
    fn default() -> (r: LayerParams)
        ensures
            r == default_layer(),
    {
        LayerParams {
            hidden_dim: 4096,
            intermediate_dim: 11008,
            num_heads: 32,
            num_kv_heads: 32,
            head_dim: 128,
            vocab_size: 32000,
            layer_idx: 0,
            num_layers: 32,
            rms_norm_eps: 0x3727_C5AC,
            rope_theta: 0x461C_4000,
            seq_len: 256,
            batch_size: 1,
            _pad0: 0,
            _pad1: 0,
            _pad2: 0,
            _pad3: 0,
        }
    }
}

impl LayerParams {
    /// The words that a kernel reads: the fields in order.
    pub open spec fn words(self) -> Seq<u32> {
        seq![
            self.hidden_dim,
            self.intermediate_dim,
            self.num_heads,
            self.num_kv_heads,
            self.head_dim,
            self.vocab_size,
            self.layer_idx,
            self.num_layers,
            self.rms_norm_eps,
            self.rope_theta,
            self.seq_len,
            self.batch_size,
            self._pad0,
            self._pad1,
            self._pad2,
            self._pad3,
        ]
    }

    /// The words that a kernel reads.
    pub fn to_words(&self) -> (r: Vec<u32>)
        ensures
            r@ == self.words(),
    {
        let r: Vec<u32> = vec![
            self.hidden_dim,
            self.intermediate_dim,
            self.num_heads,
            self.num_kv_heads,
            self.head_dim,
            self.vocab_size,
            self.layer_idx,
            self.num_layers,
            self.rms_norm_eps,
            self.rope_theta,
            self.seq_len,
            self.batch_size,
            self._pad0,
            self._pad1,
            self._pad2,
            self._pad3,
        ];
        assert(r@ =~= self.words());
        r
    }
}

/// SSM (State Space Model) parameters for Mamba/Jamba layers.
#[derive(Debug, Clone, Copy, PartialEq, Eq, Structural)]
pub struct SSMParams {
    /// SSM state dimension (e.g. 16)
    pub state_dim: u32,
    /// Model hidden dimension
    pub hidden_dim: u32,
    /// SSM intermediate dimension
    pub intermediate_dim: u32,
    /// Number of SSM heads
    pub num_heads: u32,
    /// Per-head dimension
    pub head_dim: u32,
    /// Current sequence length
    pub seq_len: u32,
    /// Batch size
    pub batch_size: u32,
    /// Convolution kernel width (e.g. 4)
    pub conv_width: u32,
    /// Minimum delta time
    pub dt_min: u32,
    /// Maximum delta time
    pub dt_max: u32,
    /// Current layer index
    pub layer_idx: u32,
    /// Total number of layers
    pub num_layers: u32,
    /// Explicit padding
    pub _pad0: u32,
    /// Explicit padding
    pub _pad1: u32,
    /// Explicit padding
    pub _pad2: u32,
    /// Explicit padding
    pub _pad3: u32,
}

/// The parameters of a state space layer with 16 states for each of 8192 channels.
pub open spec fn default_ssm() -> SSMParams {
    SSMParams {
        state_dim: 16,
        hidden_dim: 4096,
        intermediate_dim: 8192,
        num_heads: 1,
        head_dim: 64,
        seq_len: 256,
        batch_size: 1,
        conv_width: 4,
        // one thousandth
        dt_min: 0x3A83_126F,
        // one tenth
        dt_max: 0x3DCC_CCCD,
        layer_idx: 0,
        num_layers: 32,
        _pad0: 0,
        _pad1: 0,
        _pad2: 0,
        _pad3: 0,
    }
}

impl Default for SSMParams {
    fn default() -> (r: SSMParams)
        ensures
            r == default_ssm(),
    {
        SSMParams {
            state_dim: 16,
            hidden_dim: 4096,
            intermediate_dim: 8192,
            num_heads: 1,
            head_dim: 64,
            seq_len: 256,
            batch_size: 1,
            conv_width: 4,
            dt_min: 0x3A83_126F,
            dt_max: 0x3DCC_CCCD,
            layer_idx: 0,
            num_layers: 32,
            _pad0: 0,
            _pad1: 0,
            _pad2: 0,
            _pad3: 0,
        }
    }
}

impl SSMParams {
    /// The words that a kernel reads: the fields in order.
    pub open spec fn words(self) -> Seq<u32> {
        seq![
            self.state_dim,
            self.hidden_dim,
            self.intermediate_dim,
            self.num_heads,
            self.head_dim,
            self.seq_len,
            self.batch_size,
            self.conv_width,
            self.dt_min,
            self.dt_max,
            self.layer_idx,
            self.num_layers,
            self._pad0,
            self._pad1,
            self._pad2,
            self._pad3,
        ]
    }

    /// The words that a kernel reads.
    pub fn to_words(&self) -> (r: Vec<u32>)
        ensures
            r@ == self.words(),
    {
        let r: Vec<u32> = vec![
            self.state_dim,
            self.hidden_dim,
            self.intermediate_dim,
            self.num_heads,
            self.head_dim,
            self.seq_len,
            self.batch_size,
            self.conv_width,
            self.dt_min,
            self.dt_max,
            self.layer_idx,
            self.num_layers,
            self._pad0,
            self._pad1,
            self._pad2,
            self._pad3,
        ];
        assert(r@ =~= self.words());
        r
    }
}

} // verus!
