use metal_attention::gguf::architectures::{map_tensor_name, ModelArchitecture, WeightRole};

#[test]
fn test_architecture_from_str() {
    assert_eq!(
        ModelArchitecture::from_str_name("llama"),
        ModelArchitecture::Llama
    );
    assert_eq!(
        ModelArchitecture::from_str_name("Llama"),
        ModelArchitecture::Llama
    );
    assert_eq!(
        ModelArchitecture::from_str_name("LLAMA"),
        ModelArchitecture::Llama
    );
    assert_eq!(
        ModelArchitecture::from_str_name("rwkv"),
        ModelArchitecture::Rwkv
    );
    assert_eq!(
        ModelArchitecture::from_str_name("rwkv6"),
        ModelArchitecture::Rwkv
    );
    assert_eq!(
        ModelArchitecture::from_str_name("rwkv7"),
        ModelArchitecture::Rwkv
    );
    assert_eq!(
        ModelArchitecture::from_str_name("jamba"),
        ModelArchitecture::Jamba
    );
    assert_eq!(
        ModelArchitecture::from_str_name("griffin"),
        ModelArchitecture::Griffin
    );
    assert_eq!(
        ModelArchitecture::from_str_name("recurrentgemma"),
        ModelArchitecture::Griffin
    );
    assert_eq!(
        ModelArchitecture::from_str_name("zamba"),
        ModelArchitecture::Zamba
    );
    assert_eq!(
        ModelArchitecture::from_str_name("zamba2"),
        ModelArchitecture::Zamba
    );
    assert_eq!(
        ModelArchitecture::from_str_name("bert"),
        ModelArchitecture::Unknown
    );
}

#[test]
fn test_map_common_tensors() {
    let arch = ModelArchitecture::Llama;
    assert_eq!(
        map_tensor_name(arch, "token_embd.weight"),
        Some((None, WeightRole::TokenEmbedding))
    );
    assert_eq!(
        map_tensor_name(arch, "output_norm.weight"),
        Some((None, WeightRole::OutputNorm))
    );
    assert_eq!(
        map_tensor_name(arch, "output.weight"),
        Some((None, WeightRole::Output))
    );
}

#[test]
fn test_map_llama_tensors() {
    let arch = ModelArchitecture::Llama;
    assert_eq!(
        map_tensor_name(arch, "blk.0.attn_q.weight"),
        Some((Some(0), WeightRole::QProj))
    );
    assert_eq!(
        map_tensor_name(arch, "blk.5.ffn_gate.weight"),
        Some((Some(5), WeightRole::GateProj))
    );
    assert_eq!(
        map_tensor_name(arch, "blk.31.attn_output.weight"),
        Some((Some(31), WeightRole::OutProj))
    );
}

#[test]
fn test_map_rwkv_tensors() {
    let arch = ModelArchitecture::Rwkv;
    assert_eq!(
        map_tensor_name(arch, "blk.0.time_mix_key.weight"),
        Some((Some(0), WeightRole::TimeMixKey))
    );
    assert_eq!(
        map_tensor_name(arch, "blk.2.channel_mix_key.weight"),
        Some((Some(2), WeightRole::ChannelMixKey))
    );
}

#[test]
fn test_map_jamba_tensors() {
    let arch = ModelArchitecture::Jamba;
    assert_eq!(
        map_tensor_name(arch, "blk.0.ssm_in.weight"),
        Some((Some(0), WeightRole::SSMIn))
    );
    assert_eq!(
        map_tensor_name(arch, "blk.1.attn_q.weight"),
        Some((Some(1), WeightRole::QProj))
    );
}

#[test]
fn test_map_griffin_tensors() {
    let arch = ModelArchitecture::Griffin;
    assert_eq!(
        map_tensor_name(arch, "blk.0.rglru_gate.weight"),
        Some((Some(0), WeightRole::RecurrentGate))
    );
}

#[test]
fn test_map_unknown_tensor() {
    assert_eq!(
        map_tensor_name(ModelArchitecture::Llama, "some.random.tensor"),
        None
    );
}
