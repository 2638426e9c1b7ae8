//! The GGUF container format.

pub mod bytes;
pub mod quantize;
pub mod metadata;
pub mod tensor;
pub mod architectures;
pub mod detect;
pub mod floats;
pub mod format;
pub mod parser;
pub mod spelling;
pub mod builder;
pub mod roundtrip;
pub mod tokenizer;
pub mod detect_laws;
pub mod builder_laws;
pub mod file_laws;
pub mod metadata_laws;
pub mod name_laws;
pub mod refusal_laws;
pub mod role_laws;
pub mod storage_laws;
pub mod token_laws;
