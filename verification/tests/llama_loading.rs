use metal_attention::gguf::architectures::{layer_tensor_name, ModelArchitecture};
use metal_attention::gguf::builder::GgufBuilder;
use metal_attention::gguf::parser::GgufFile;
use metal_attention::gguf::quantize::GgufType;
use metal_attention::gguf::tensor::GgufTensorInfo;
use metal_attention::models::llama::{can_load_layer, dequant_tensor, LlamaLayer};
use metal_attention::models::registry::ModelConfig;

const SUFFIXES: [&str; 9] = [
    "attn_norm.weight",
    "ffn_norm.weight",
    "attn_q.weight",
    "attn_k.weight",
    "attn_v.weight",
    "attn_output.weight",
    "ffn_gate.weight",
    "ffn_up.weight",
    "ffn_down.weight",
];

fn floats(values: &[f32]) -> Vec<u8> {
    values.iter().flat_map(|x| x.to_le_bytes()).collect()
}

/// Stands for the device: says which tensor it was given, and how many blocks.
fn name_and_blocks(tensor: &GgufTensorInfo, blocks: usize) -> Vec<u32> {
    vec![tensor.name.len() as u32, blocks as u32]
}

fn config() -> ModelConfig {
    ModelConfig {
        architecture: ModelArchitecture::Llama,
        hidden_size: 2,
        head_dim: 1,
        num_heads: 2,
        num_kv_heads: 1,
        num_layers: 1,
    }
}

/// A file whose tensors hold one float each, the number of the tensor; without the tensor
/// `left_out`.
fn file_without(left_out: usize) -> GgufFile {
    let mut builder = GgufBuilder::new().add_string("general.architecture", "llama");
    for (i, suffix) in SUFFIXES.iter().enumerate() {
        if i != left_out {
            builder = builder.add_tensor(
                &layer_tensor_name(3, suffix),
                &[1],
                GgufType::F32,
                floats(&[i as f32]),
            );
        }
    }
    GgufFile::from_bytes(builder.build()).unwrap()
}

#[test]
fn a_layer_is_loaded_from_its_nine_tensors() {
    let file = file_without(9);
    let layer =
        LlamaLayer::from_gguf(&file, 3, &config(), 5, false, Some(&name_and_blocks)).unwrap();
    let one = |i: usize| vec![(i as f32).to_bits()];
    assert_eq!(layer.attn_norm_weight, one(0));
    assert_eq!(layer.ffn_norm_weight, one(1));
    assert_eq!(layer.attention.w_q, one(2));
    assert_eq!(layer.attention.w_k, one(3));
    assert_eq!(layer.attention.w_v, one(4));
    assert_eq!(layer.attention.w_o, one(5));
    assert_eq!(layer.w_gate, one(6));
    assert_eq!(layer.w_up, one(7));
    assert_eq!(layer.w_down, one(8));
    assert_eq!(layer.hidden_size, 2);
    assert_eq!(layer.intermediate_size, 5);
    assert_eq!(layer.attention.num_heads, 2);
    assert_eq!(layer.attention.num_kv_heads, 1);
    assert_eq!(layer.attention.max_seq_len, 2048);
}

#[test]
fn a_missing_tensor_is_named() {
    for (i, suffix) in SUFFIXES.iter().enumerate() {
        let file = file_without(i);
        let result = LlamaLayer::from_gguf(&file, 3, &config(), 5, true, Some(&name_and_blocks));
        assert_eq!(result.err().unwrap(), format!("Tensor not found: blk.3.{suffix}"));
    }
}

#[test]
fn layers_are_told_apart_by_their_number() {
    let file = file_without(9);
    let result = LlamaLayer::from_gguf(&file, 30, &config(), 5, true, Some(&name_and_blocks));
    assert_eq!(result.err().unwrap(), "Tensor not found: blk.30.attn_norm.weight");
    assert_eq!(layer_tensor_name(0, "x"), "blk.0.x");
    assert_eq!(layer_tensor_name(1203, "x"), "blk.1203.x");
    let largest = layer_tensor_name(usize::MAX, "x");
    assert_eq!(largest, format!("blk.{}.x", usize::MAX));
}

#[test]
fn tensors_are_turned_into_floats_by_their_type() {
    let data = GgufBuilder::new()
        .add_tensor("single", &[2], GgufType::F32, floats(&[1.5, -2.0]))
        .add_tensor("half", &[2], GgufType::F16, vec![0x00, 0x3C, 0x00, 0x40])
        .add_tensor_zeros("q4", &[64], GgufType::Q4_0)
        .add_tensor_zeros("q8", &[3, 32], GgufType::Q8_0)
        .add_tensor_zeros("k", &[256], GgufType::Q6_K)
        .build();
    let file = GgufFile::from_bytes(data).unwrap();
    let device = Some(&name_and_blocks);
    let bits = |x: f32| x.to_bits();
    assert_eq!(dequant_tensor(&file, "single", false, device), Ok(vec![bits(1.5), bits(-2.0)]));
    assert_eq!(dequant_tensor(&file, "half", false, device), Ok(vec![bits(1.0), bits(2.0)]));
    assert_eq!(dequant_tensor(&file, "q4", true, device), Ok(vec![2, 2]));
    assert_eq!(dequant_tensor(&file, "q8", true, device), Ok(vec![2, 3]));
    assert_eq!(
        dequant_tensor(&file, "k", true, device),
        Err("Unsupported quantization type: Q6_K".to_string())
    );
    assert_eq!(
        dequant_tensor(&file, "none", true, device),
        Err("Tensor not found: none".to_string())
    );
}

#[test]
fn quantized_tensors_need_a_device_and_pipelines() {
    let data = GgufBuilder::new()
        .add_tensor_zeros("q4", &[32], GgufType::Q4_0)
        .add_tensor_zeros("q8", &[32], GgufType::Q8_0)
        .build();
    let file = GgufFile::from_bytes(data).unwrap();
    let device = Some(&name_and_blocks);
    let nothing = if file.tensors.is_empty() { device } else { None };
    assert_eq!(
        dequant_tensor(&file, "q4", false, device),
        Err("GPU device required for Q4_0 dequantization".to_string())
    );
    assert_eq!(
        dequant_tensor(&file, "q8", false, nothing),
        Err("GPU device required for Q8_0 dequantization".to_string())
    );
    assert_eq!(
        dequant_tensor(&file, "q4", true, nothing),
        Err("PSO cache required for Q4_0 dequantization".to_string())
    );
    assert_eq!(
        dequant_tensor(&file, "q8", true, nothing),
        Err("PSO cache required for Q8_0 dequantization".to_string())
    );
}

#[test]
fn norms_are_loaded_without_pipelines() {
    let data = GgufBuilder::new()
        .add_tensor_zeros("blk.0.attn_norm.weight", &[32], GgufType::Q4_0)
        .build();
    let file = GgufFile::from_bytes(data).unwrap();
    let result = LlamaLayer::from_gguf(&file, 0, &config(), 5, true, Some(&name_and_blocks));
    assert_eq!(result.err().unwrap(), "PSO cache required for Q4_0 dequantization");
}

#[test]
fn only_tensors_that_loading_comes_to_have_to_be_whole() {
    assert!(can_load_layer(&file_without(9), 3, false, false));
    let file = |first: GgufType, left_out: &str| {
        let mut builder = GgufBuilder::new();
        for suffix in SUFFIXES {
            let name = layer_tensor_name(0, suffix);
            let ends_early = suffix == "attn_v.weight";
            let dtype = if suffix == "attn_norm.weight" { first } else { GgufType::F32 };
            let shape = if ends_early { [1000] } else { [1] };
            if suffix != left_out {
                builder = builder.add_tensor(&name, &shape, dtype, floats(&[1.0]));
            }
        }
        GgufFile::from_bytes(builder.build()).unwrap()
    };
    // The tensor that ends early is come to.
    assert!(!can_load_layer(&file(GgufType::F32, ""), 0, true, true));
    assert!(!can_load_layer(&file(GgufType::F32, "ffn_up.weight"), 0, true, true));
    // A tensor before it is missing, or of a type that is refused.
    let cut = file(GgufType::F32, "ffn_norm.weight");
    assert!(can_load_layer(&cut, 0, true, true));
    let none: Option<&fn(&GgufTensorInfo, usize) -> Vec<u32>> = None;
    let error = LlamaLayer::from_gguf(&cut, 0, &config(), 4, false, none).err().unwrap();
    assert_eq!(error, "Tensor not found: blk.0.ffn_norm.weight");
    assert!(can_load_layer(&file(GgufType::I8, ""), 0, true, true));
}
