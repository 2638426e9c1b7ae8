//! Model blocks for hybrid inference: their weights, their states and how layers are put together.
//!
//! Weights and states are 32-bit floats, held by their bit patterns.

pub mod flash_attn;
pub mod gating;
pub mod griffin;
pub mod heads;
pub mod jamba;
pub mod llama;
pub mod mamba;
pub mod registry;
pub mod rg_lru;
pub mod rwkv7;
pub mod steps;
pub mod weights;
pub mod zamba;
pub mod weight_laws;
pub mod layer_laws;
pub mod head_laws;
pub mod loading_laws;
