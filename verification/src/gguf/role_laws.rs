//! Which tensor has which role, name by name.

use super::architectures::{
    layer_name_is_mapped_back, map_tensor_name, ModelArchitecture, WeightRole,
};
use crate::text::decimal;
use vstd::prelude::*;

verus! {

/// In a Llama, Zamba or unknown model, the tensors of a layer have these roles by the ends of their
/// names, at whatever layer, and tensors with other names have none.
pub proof fn llama_tensors_have_their_roles(
    arch: ModelArchitecture,
    layer: usize,
    suffix: Seq<char>,
    name: &str,
    r: Option<(Option<usize>, WeightRole)>,
)
    requires
        arch == ModelArchitecture::Llama || arch == ModelArchitecture::Zamba || arch
            == ModelArchitecture::Unknown,
        name@ == "blk."@ + decimal(layer as nat) + "."@ + suffix,
        call_ensures(map_tensor_name, (arch, name), r),
    ensures
        r == Some((Some(layer), WeightRole::AttnNorm)) <==> suffix == "attn_norm.weight"@,
        r == Some((Some(layer), WeightRole::QProj)) <==> suffix == "attn_q.weight"@,
        r == Some((Some(layer), WeightRole::KProj)) <==> suffix == "attn_k.weight"@,
        r == Some((Some(layer), WeightRole::VProj)) <==> suffix == "attn_v.weight"@,
        r == Some((Some(layer), WeightRole::OutProj)) <==> suffix == "attn_output.weight"@,
        r == Some((Some(layer), WeightRole::FfnNorm)) <==> suffix == "ffn_norm.weight"@,
        r == Some((Some(layer), WeightRole::GateProj)) <==> suffix == "ffn_gate.weight"@,
        r == Some((Some(layer), WeightRole::UpProj)) <==> suffix == "ffn_up.weight"@,
        r == Some((Some(layer), WeightRole::DownProj)) <==> suffix == "ffn_down.weight"@,
        r is None <==> {
            &&& suffix != "attn_norm.weight"@
            &&& suffix != "attn_q.weight"@
            &&& suffix != "attn_k.weight"@
            &&& suffix != "attn_v.weight"@
            &&& suffix != "attn_output.weight"@
            &&& suffix != "ffn_norm.weight"@
            &&& suffix != "ffn_gate.weight"@
            &&& suffix != "ffn_up.weight"@
            &&& suffix != "ffn_down.weight"@
        },
{
    layer_name_is_mapped_back(arch, layer, suffix);
    reveal_strlit("attn_norm.weight");
    reveal_strlit("attn_q.weight");
    reveal_strlit("attn_k.weight");
    reveal_strlit("attn_v.weight");
    reveal_strlit("attn_output.weight");
    reveal_strlit("ffn_norm.weight");
    reveal_strlit("ffn_gate.weight");
    reveal_strlit("ffn_up.weight");
    reveal_strlit("ffn_down.weight");
    assert(suffix == "attn_q.weight"@ ==> suffix[5] == 'q');
    assert(suffix == "attn_k.weight"@ ==> suffix[5] == 'k');
    assert(suffix == "attn_v.weight"@ ==> suffix[5] == 'v');
    assert(suffix == "ffn_up.weight"@ ==> suffix[5] == 'p');
    assert(suffix == "ffn_norm.weight"@ ==> suffix[4] == 'n');
    assert(suffix == "ffn_gate.weight"@ ==> suffix[4] == 'g');
    assert(suffix == "ffn_down.weight"@ ==> suffix[4] == 'd');
}

/// In an RWKV model, the tensors of a layer have these roles by the ends of their names, at
/// whatever layer, and tensors with other names have none.
pub proof fn rwkv_tensors_have_their_roles(
    arch: ModelArchitecture,
    layer: usize,
    suffix: Seq<char>,
    name: &str,
    r: Option<(Option<usize>, WeightRole)>,
)
    requires
        arch == ModelArchitecture::Rwkv,
        name@ == "blk."@ + decimal(layer as nat) + "."@ + suffix,
        call_ensures(map_tensor_name, (arch, name), r),
    ensures
        r == Some((Some(layer), WeightRole::AttnNorm)) <==> suffix == "attn_norm.weight"@,
        r == Some((Some(layer), WeightRole::TimeMixKey)) <==> suffix
            == "time_mix_key.weight"@ || suffix == "time_mix_k.weight"@,
        r == Some((Some(layer), WeightRole::TimeMixValue)) <==> suffix
            == "time_mix_value.weight"@ || suffix == "time_mix_v.weight"@,
        r == Some((Some(layer), WeightRole::TimeMixReceptance)) <==> suffix
            == "time_mix_receptance.weight"@ || suffix == "time_mix_r.weight"@,
        r == Some((Some(layer), WeightRole::TimeMixGate)) <==> suffix
            == "time_mix_gate.weight"@ || suffix == "time_mix_g.weight"@,
        r == Some((Some(layer), WeightRole::TimeMixFirst)) <==> suffix == "time_mix_first.weight"@,
        r == Some((Some(layer), WeightRole::TimeMixDecay)) <==> suffix
            == "time_mix_decay.weight"@ || suffix == "time_mix_w.weight"@,
        r == Some((Some(layer), WeightRole::TimeMixLnX)) <==> suffix == "time_mix_ln.weight"@,
        r == Some((Some(layer), WeightRole::OutProj)) <==> suffix
            == "time_mix_output.weight"@ || suffix == "time_mix_o.weight"@,
        r == Some((Some(layer), WeightRole::FfnNorm)) <==> suffix
            == "ffn_norm.weight"@ || suffix == "channel_mix_norm.weight"@,
        r == Some((Some(layer), WeightRole::ChannelMixKey)) <==> suffix
            == "channel_mix_key.weight"@,
        r == Some((Some(layer), WeightRole::ChannelMixValue)) <==> suffix
            == "channel_mix_value.weight"@,
        r == Some((Some(layer), WeightRole::ChannelMixReceptance)) <==> suffix
            == "channel_mix_receptance.weight"@,
        r is None <==> {
            &&& suffix != "attn_norm.weight"@
            &&& suffix != "time_mix_key.weight"@
            &&& suffix != "time_mix_k.weight"@
            &&& suffix != "time_mix_value.weight"@
            &&& suffix != "time_mix_v.weight"@
            &&& suffix != "time_mix_receptance.weight"@
            &&& suffix != "time_mix_r.weight"@
            &&& suffix != "time_mix_gate.weight"@
            &&& suffix != "time_mix_g.weight"@
            &&& suffix != "time_mix_first.weight"@
            &&& suffix != "time_mix_decay.weight"@
            &&& suffix != "time_mix_w.weight"@
            &&& suffix != "time_mix_ln.weight"@
            &&& suffix != "time_mix_output.weight"@
            &&& suffix != "time_mix_o.weight"@
            &&& suffix != "ffn_norm.weight"@
            &&& suffix != "channel_mix_norm.weight"@
            &&& suffix != "channel_mix_key.weight"@
            &&& suffix != "channel_mix_value.weight"@
            &&& suffix != "channel_mix_receptance.weight"@
        },
{
    layer_name_is_mapped_back(arch, layer, suffix);
    reveal_strlit("attn_norm.weight");
    reveal_strlit("time_mix_key.weight");
    reveal_strlit("time_mix_k.weight");
    reveal_strlit("time_mix_value.weight");
    reveal_strlit("time_mix_v.weight");
    reveal_strlit("time_mix_receptance.weight");
    reveal_strlit("time_mix_r.weight");
    reveal_strlit("time_mix_gate.weight");
    reveal_strlit("time_mix_g.weight");
    reveal_strlit("time_mix_first.weight");
    reveal_strlit("time_mix_decay.weight");
    reveal_strlit("time_mix_w.weight");
    reveal_strlit("time_mix_ln.weight");
    reveal_strlit("time_mix_output.weight");
    reveal_strlit("time_mix_o.weight");
    reveal_strlit("ffn_norm.weight");
    reveal_strlit("channel_mix_norm.weight");
    reveal_strlit("channel_mix_key.weight");
    reveal_strlit("channel_mix_value.weight");
    reveal_strlit("channel_mix_receptance.weight");
    assert(suffix == "time_mix_k.weight"@ ==> suffix[9] == 'k');
    assert(suffix == "time_mix_v.weight"@ ==> suffix[9] == 'v');
    assert(suffix == "time_mix_r.weight"@ ==> suffix[9] == 'r');
    assert(suffix == "time_mix_g.weight"@ ==> suffix[9] == 'g');
    assert(suffix == "time_mix_w.weight"@ ==> suffix[9] == 'w');
    assert(suffix == "time_mix_o.weight"@ ==> suffix[9] == 'o');
    assert(suffix == "time_mix_value.weight"@ ==> suffix[9] == 'v');
    assert(suffix == "time_mix_first.weight"@ ==> suffix[9] == 'f');
    assert(suffix == "time_mix_decay.weight"@ ==> suffix[9] == 'd');
    assert(suffix == "time_mix_output.weight"@ ==> suffix[0] == 't');
    assert(suffix == "channel_mix_key.weight"@ ==> suffix[0] == 'c');
}

/// In a Jamba model, the tensors of a layer have these roles by the ends of their names, at
/// whatever layer, and tensors with other names have none.
pub proof fn jamba_tensors_have_their_roles(
    arch: ModelArchitecture,
    layer: usize,
    suffix: Seq<char>,
    name: &str,
    r: Option<(Option<usize>, WeightRole)>,
)
    requires
        arch == ModelArchitecture::Jamba,
        name@ == "blk."@ + decimal(layer as nat) + "."@ + suffix,
        call_ensures(map_tensor_name, (arch, name), r),
    ensures
        r == Some((Some(layer), WeightRole::AttnNorm)) <==> suffix == "attn_norm.weight"@,
        r == Some((Some(layer), WeightRole::QProj)) <==> suffix == "attn_q.weight"@,
        r == Some((Some(layer), WeightRole::KProj)) <==> suffix == "attn_k.weight"@,
        r == Some((Some(layer), WeightRole::VProj)) <==> suffix == "attn_v.weight"@,
        r == Some((Some(layer), WeightRole::OutProj)) <==> suffix == "attn_output.weight"@,
        r == Some((Some(layer), WeightRole::SSMIn)) <==> suffix == "ssm_in.weight"@,
        r == Some((Some(layer), WeightRole::SSMOut)) <==> suffix == "ssm_out.weight"@,
        r == Some((Some(layer), WeightRole::SSMConv1d)) <==> suffix == "ssm_conv1d.weight"@,
        r == Some((Some(layer), WeightRole::SSMDt)) <==> suffix == "ssm_dt.weight"@,
        r == Some((Some(layer), WeightRole::SSMA)) <==> suffix == "ssm_a"@,
        r == Some((Some(layer), WeightRole::SSMD)) <==> suffix == "ssm_d"@,
        r == Some((Some(layer), WeightRole::FfnNorm)) <==> suffix == "ffn_norm.weight"@,
        r == Some((Some(layer), WeightRole::GateProj)) <==> suffix == "ffn_gate.weight"@,
        r == Some((Some(layer), WeightRole::UpProj)) <==> suffix == "ffn_up.weight"@,
        r == Some((Some(layer), WeightRole::DownProj)) <==> suffix == "ffn_down.weight"@,
        r is None <==> {
            &&& suffix != "attn_norm.weight"@
            &&& suffix != "attn_q.weight"@
            &&& suffix != "attn_k.weight"@
            &&& suffix != "attn_v.weight"@
            &&& suffix != "attn_output.weight"@
            &&& suffix != "ssm_in.weight"@
            &&& suffix != "ssm_out.weight"@
            &&& suffix != "ssm_conv1d.weight"@
            &&& suffix != "ssm_dt.weight"@
            &&& suffix != "ssm_a"@
            &&& suffix != "ssm_d"@
            &&& suffix != "ffn_norm.weight"@
            &&& suffix != "ffn_gate.weight"@
            &&& suffix != "ffn_up.weight"@
            &&& suffix != "ffn_down.weight"@
        },
{
    layer_name_is_mapped_back(arch, layer, suffix);
    reveal_strlit("attn_norm.weight");
    reveal_strlit("attn_q.weight");
    reveal_strlit("attn_k.weight");
    reveal_strlit("attn_v.weight");
    reveal_strlit("attn_output.weight");
    reveal_strlit("ssm_in.weight");
    reveal_strlit("ssm_out.weight");
    reveal_strlit("ssm_conv1d.weight");
    reveal_strlit("ssm_dt.weight");
    reveal_strlit("ssm_a");
    reveal_strlit("ssm_d");
    reveal_strlit("ffn_norm.weight");
    reveal_strlit("ffn_gate.weight");
    reveal_strlit("ffn_up.weight");
    reveal_strlit("ffn_down.weight");
    assert(suffix == "attn_q.weight"@ ==> suffix[5] == 'q');
    assert(suffix == "attn_k.weight"@ ==> suffix[5] == 'k');
    assert(suffix == "attn_v.weight"@ ==> suffix[5] == 'v');
    assert(suffix == "ssm_in.weight"@ ==> suffix[5] == 'n');
    assert(suffix == "ssm_dt.weight"@ ==> suffix[5] == 't');
    assert(suffix == "ffn_up.weight"@ ==> suffix[5] == 'p');
    assert(suffix == "ssm_a"@ ==> suffix[4] == 'a');
    assert(suffix == "ssm_d"@ ==> suffix[4] == 'd');
    assert(suffix == "ffn_norm.weight"@ ==> suffix[4] == 'n');
    assert(suffix == "ffn_gate.weight"@ ==> suffix[4] == 'g');
    assert(suffix == "ffn_down.weight"@ ==> suffix[4] == 'd');
}

/// In a Griffin model, the tensors of a layer have these roles by the ends of their names, at
/// whatever layer, and tensors with other names have none.
pub proof fn griffin_tensors_have_their_roles(
    arch: ModelArchitecture,
    layer: usize,
    suffix: Seq<char>,
    name: &str,
    r: Option<(Option<usize>, WeightRole)>,
)
    requires
        arch == ModelArchitecture::Griffin,
        name@ == "blk."@ + decimal(layer as nat) + "."@ + suffix,
        call_ensures(map_tensor_name, (arch, name), r),
    ensures
        r == Some((Some(layer), WeightRole::AttnNorm)) <==> suffix == "attn_norm.weight"@,
        r == Some((Some(layer), WeightRole::QProj)) <==> suffix == "attn_q.weight"@,
        r == Some((Some(layer), WeightRole::KProj)) <==> suffix == "attn_k.weight"@,
        r == Some((Some(layer), WeightRole::VProj)) <==> suffix == "attn_v.weight"@,
        r == Some((Some(layer), WeightRole::OutProj)) <==> suffix == "attn_output.weight"@,
        r == Some((Some(layer), WeightRole::RecurrentGate)) <==> suffix
            == "rglru_gate.weight"@ || suffix == "recurrent_gate.weight"@,
        r == Some((Some(layer), WeightRole::RecurrentLinear)) <==> suffix
            == "rglru_a.weight"@ || suffix == "recurrent_linear.weight"@,
        r == Some((Some(layer), WeightRole::RecurrentOut)) <==> suffix == "recurrent_out.weight"@,
        r == Some((Some(layer), WeightRole::FfnNorm)) <==> suffix == "ffn_norm.weight"@,
        r == Some((Some(layer), WeightRole::GateProj)) <==> suffix == "ffn_gate.weight"@,
        r == Some((Some(layer), WeightRole::UpProj)) <==> suffix == "ffn_up.weight"@,
        r == Some((Some(layer), WeightRole::DownProj)) <==> suffix == "ffn_down.weight"@,
        r is None <==> {
            &&& suffix != "attn_norm.weight"@
            &&& suffix != "attn_q.weight"@
            &&& suffix != "attn_k.weight"@
            &&& suffix != "attn_v.weight"@
            &&& suffix != "attn_output.weight"@
            &&& suffix != "rglru_gate.weight"@
            &&& suffix != "recurrent_gate.weight"@
            &&& suffix != "rglru_a.weight"@
            &&& suffix != "recurrent_linear.weight"@
            &&& suffix != "recurrent_out.weight"@
            &&& suffix != "ffn_norm.weight"@
            &&& suffix != "ffn_gate.weight"@
            &&& suffix != "ffn_up.weight"@
            &&& suffix != "ffn_down.weight"@
        },
{
    layer_name_is_mapped_back(arch, layer, suffix);
    reveal_strlit("attn_norm.weight");
    reveal_strlit("attn_q.weight");
    reveal_strlit("attn_k.weight");
    reveal_strlit("attn_v.weight");
    reveal_strlit("attn_output.weight");
    reveal_strlit("rglru_gate.weight");
    reveal_strlit("recurrent_gate.weight");
    reveal_strlit("rglru_a.weight");
    reveal_strlit("recurrent_linear.weight");
    reveal_strlit("recurrent_out.weight");
    reveal_strlit("ffn_norm.weight");
    reveal_strlit("ffn_gate.weight");
    reveal_strlit("ffn_up.weight");
    reveal_strlit("ffn_down.weight");
    assert(suffix == "attn_q.weight"@ ==> suffix[5] == 'q');
    assert(suffix == "attn_k.weight"@ ==> suffix[5] == 'k');
    assert(suffix == "attn_v.weight"@ ==> suffix[5] == 'v');
    assert(suffix == "ffn_up.weight"@ ==> suffix[5] == 'p');
    assert(suffix == "ffn_norm.weight"@ ==> suffix[4] == 'n');
    assert(suffix == "ffn_gate.weight"@ ==> suffix[4] == 'g');
    assert(suffix == "ffn_down.weight"@ ==> suffix[4] == 'd');
}

/// The tensors that belong to no layer have their roles in every model, and no other tensor has
/// such a role.
pub proof fn whole_model_tensors_have_their_roles(
    arch: ModelArchitecture,
    name: &str,
    r: Option<(Option<usize>, WeightRole)>,
)
    requires
        call_ensures(map_tensor_name, (arch, name), r),
    ensures
        r == Some((None::<usize>, WeightRole::TokenEmbedding)) <==> name@ == "token_embd.weight"@,
        r == Some((None::<usize>, WeightRole::OutputNorm)) <==> name@ == "output_norm.weight"@,
        r == Some((None::<usize>, WeightRole::Output)) <==> name@ == "output.weight"@,
        r matches Some((None, role)) ==> role == WeightRole::TokenEmbedding || role
            == WeightRole::OutputNorm || role == WeightRole::Output,
{
    reveal_strlit("token_embd.weight");
    reveal_strlit("output_norm.weight");
    reveal_strlit("output.weight");
    assert("token_embd.weight"@.len() != "output_norm.weight"@.len());
    assert("token_embd.weight"@.len() != "output.weight"@.len());
    assert("output_norm.weight"@.len() != "output.weight"@.len());
}

} // verus!
