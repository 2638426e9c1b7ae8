//! Host side of the compute kernels.

pub mod kv_cache;
pub mod layout;
pub mod paged_cache;
pub mod types;
pub mod pipeline;
pub mod buffer;
pub mod command;
pub mod dispatch;
pub mod prefix_sum;
pub mod program;
pub mod attention_plans;
pub mod element_plans;
pub mod recurrent_plans;
pub mod multi_pass_plans;
pub mod plan_laws;
pub mod data_laws;
pub mod parameter_laws;
pub mod signature;
pub mod signature_laws;
