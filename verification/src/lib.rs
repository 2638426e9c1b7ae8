//! Attention and sequence-model inference on Metal: model files, kernel launches and model blocks.

pub mod float_laws;
pub mod float_order;
pub mod gguf;
pub mod kernels;
pub mod models;
pub mod text;
pub mod text_laws;
pub mod traits;
