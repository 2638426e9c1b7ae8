use metal_attention::gguf::architectures::ModelArchitecture;
use metal_attention::gguf::detect::detect_architecture;
use metal_attention::gguf::metadata::{GgufMetadata, GgufMetadataValue};
use metal_attention::gguf::quantize::GgufType;
use metal_attention::gguf::tensor::GgufTensorInfo;

fn make_metadata(arch: Option<&str>) -> GgufMetadata {
    let mut map = Vec::new();
    if let Some(a) = arch {
        map.push((
            "general.architecture".to_string(),
            GgufMetadataValue::String(a.to_string()),
        ));
    }
    GgufMetadata::new(map)
}

fn make_tensor(name: &str) -> GgufTensorInfo {
    GgufTensorInfo {
        name: name.to_string(),
        ndim: 1,
        shape: vec![1],
        gguf_type: GgufType::F32,
        offset_in_data: 0,
    }
}

#[test]
fn test_detect_from_metadata() {
    let md = make_metadata(Some("llama"));
    assert_eq!(detect_architecture(&md, &[]), ModelArchitecture::Llama);

    let md = make_metadata(Some("rwkv"));
    assert_eq!(detect_architecture(&md, &[]), ModelArchitecture::Rwkv);

    let md = make_metadata(Some("jamba"));
    assert_eq!(detect_architecture(&md, &[]), ModelArchitecture::Jamba);
}

#[test]
fn test_detect_llama_from_tensors() {
    let md = make_metadata(None);
    let tensors = vec![
        make_tensor("blk.0.attn_q.weight"),
        make_tensor("blk.0.attn_k.weight"),
        make_tensor("blk.0.attn_v.weight"),
        make_tensor("blk.0.ffn_gate.weight"),
    ];
    assert_eq!(detect_architecture(&md, &tensors), ModelArchitecture::Llama);
}

#[test]
fn test_detect_rwkv_from_tensors() {
    let md = make_metadata(None);
    let tensors = vec![
        make_tensor("blk.0.time_mix_key.weight"),
        make_tensor("blk.0.time_mix_value.weight"),
        make_tensor("blk.0.channel_mix_key.weight"),
    ];
    assert_eq!(detect_architecture(&md, &tensors), ModelArchitecture::Rwkv);
}

#[test]
fn test_detect_jamba_from_tensors() {
    let md = make_metadata(None);
    let tensors = vec![
        make_tensor("blk.0.attn_q.weight"),
        make_tensor("blk.0.ssm_in.weight"),
        make_tensor("blk.0.ssm_out.weight"),
    ];
    assert_eq!(detect_architecture(&md, &tensors), ModelArchitecture::Jamba);
}

#[test]
fn test_detect_griffin_from_tensors() {
    let md = make_metadata(None);
    let tensors = vec![
        make_tensor("blk.0.rglru_gate.weight"),
        make_tensor("blk.0.rglru_a.weight"),
    ];
    assert_eq!(
        detect_architecture(&md, &tensors),
        ModelArchitecture::Griffin
    );
}

#[test]
fn test_detect_griffin_from_metadata() {
    let md = make_metadata(Some("griffin"));
    assert_eq!(detect_architecture(&md, &[]), ModelArchitecture::Griffin);

    let md = make_metadata(Some("recurrentgemma"));
    assert_eq!(detect_architecture(&md, &[]), ModelArchitecture::Griffin);
}

#[test]
fn test_detect_zamba_from_metadata() {
    let md = make_metadata(Some("zamba"));
    assert_eq!(detect_architecture(&md, &[]), ModelArchitecture::Zamba);

    let md = make_metadata(Some("zamba2"));
    assert_eq!(detect_architecture(&md, &[]), ModelArchitecture::Zamba);
}

#[test]
fn test_detect_zamba_from_tensors() {
    let md = make_metadata(None);
    let tensors = vec![
        make_tensor("blk.0.attn_q.weight"),
        make_tensor("blk.0.ssm_in.weight"),
        make_tensor("blk.0.ssm_out.weight"),
        make_tensor("blk.0.lora_a.weight"),
    ];
    assert_eq!(detect_architecture(&md, &tensors), ModelArchitecture::Zamba);
}

#[test]
fn test_detect_unknown() {
    let md = make_metadata(None);
    let tensors = vec![make_tensor("some.random.tensor")];
    assert_eq!(
        detect_architecture(&md, &tensors),
        ModelArchitecture::Unknown
    );
}
