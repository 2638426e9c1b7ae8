//! Architecture detection from GGUF metadata and tensor name patterns.

use super::architectures::{architecture_named, ModelArchitecture};
use super::metadata::{lookup, GgufMetadata, MetaValue};
use super::tensor::GgufTensorInfo;
use crate::text::{contains_text, lowercase_of, occurs_in};
use vstd::prelude::*;

verus! {

/// A name that only a tensor of an attention layer has.
pub open spec fn names_attention(name: Seq<char>) -> bool {
    occurs_in("attn_q."@, name) || occurs_in("attn_k."@, name) || occurs_in("attn_v."@, name)
}

/// A name that only a tensor of a state space layer has.
pub open spec fn names_ssm(name: Seq<char>) -> bool {
    occurs_in(".ssm_in."@, name) || occurs_in(".ssm_out."@, name) || occurs_in(
        ".ssm_conv1d."@,
        name,
    )
}

/// A name that only a tensor of an RWKV time mixing block has.
pub open spec fn names_time_mix(name: Seq<char>) -> bool {
    occurs_in("time_mix_"@, name)
}

/// A name that only a tensor of an RWKV channel mixing block has.
pub open spec fn names_channel_mix(name: Seq<char>) -> bool {
    occurs_in("channel_mix_"@, name)
}

/// A name that only a tensor of a gated linear recurrence has.
pub open spec fn names_recurrence(name: Seq<char>) -> bool {
    occurs_in("rglru_"@, name) || occurs_in("recurrent_gate"@, name)
}

/// A name that only a tensor of a shared attention block has.
pub open spec fn names_lora(name: Seq<char>) -> bool {
    occurs_in("lora_"@, name) || occurs_in(".shared_attn."@, name)
}

/// Whether some name has the property `p`.
pub open spec fn some_name(names: Seq<Seq<char>>, p: spec_fn(Seq<char>) -> bool) -> bool {
    exists|i: int| 0 <= i < names.len() && p(#[trigger] names[i])
}

/// The architecture that the names of a model's tensors show.
pub open spec fn architecture_of_names(names: Seq<Seq<char>>) -> ModelArchitecture {
    let attn = some_name(names, |n: Seq<char>| names_attention(n));
    let ssm = some_name(names, |n: Seq<char>| names_ssm(n));
    let time_mix = some_name(names, |n: Seq<char>| names_time_mix(n));
    let channel_mix = some_name(names, |n: Seq<char>| names_channel_mix(n));
    let recurrence = some_name(names, |n: Seq<char>| names_recurrence(n));
    let lora = some_name(names, |n: Seq<char>| names_lora(n));
    architecture_of_marks(attn, ssm, time_mix, channel_mix, recurrence, lora)
}

/// The architecture that the kinds of tensors in a model show. A model with both mixing blocks is
/// RWKV whatever else it has; one with attention and state space layers is Zamba if it shares
/// attention weights and Jamba if not; recurrences come next, plain attention last.
pub open spec fn architecture_of_marks(
    attn: bool,
    ssm: bool,
    time_mix: bool,
    channel_mix: bool,
    recurrence: bool,
    lora: bool,
) -> ModelArchitecture {
    if time_mix && channel_mix {
        ModelArchitecture::Rwkv
    } else if attn && ssm && lora {
        ModelArchitecture::Zamba
    } else if attn && ssm {
        ModelArchitecture::Jamba
    } else if recurrence {
        ModelArchitecture::Griffin
    } else if attn && !ssm && !time_mix {
        ModelArchitecture::Llama
    } else {
        ModelArchitecture::Unknown
    }
}

/// The names of the tensors.
pub open spec fn names_of(tensors: Seq<GgufTensorInfo>) -> Seq<Seq<char>> {
    tensors.map_values(|t: GgufTensorInfo| t.name@)
}

/// The architecture of a model: the one that its metadata names, if that is a known one, else the
/// one that the tensor names show.
pub open spec fn detected(
    metadata: Map<Seq<char>, MetaValue>,
    names: Seq<Seq<char>>,
) -> ModelArchitecture {
    match lookup(metadata, "general.architecture"@) {
        Some(MetaValue::Text(name)) => if architecture_named(lowercase_of(name))
            != ModelArchitecture::Unknown {
            architecture_named(lowercase_of(name))
        } else {
            architecture_of_names(names)
        },
        _ => architecture_of_names(names),
    }
}

/// Detect the model architecture from metadata.
///
/// Strategy:
/// 1. Check `general.architecture` metadata key (primary)
/// 2. Fallback: scan tensor names for architecture-specific patterns
pub fn detect_architecture(metadata: &GgufMetadata, tensors: &[GgufTensorInfo]) -> (r:
    ModelArchitecture)
    ensures
        r == detected(metadata@, names_of(tensors@)),
{
    match metadata.get_string("general.architecture") {
        Some(name) => {
            let arch: ModelArchitecture = ModelArchitecture::from_str_name(name);
            if arch != ModelArchitecture::Unknown {
                return arch;
            }
        },
        None => {},
    }
    detect_from_tensor_names(tensors)
}

proof fn some_name_extends(names: Seq<Seq<char>>, k: int, p: spec_fn(Seq<char>) -> bool)
    requires
        0 <= k < names.len(),
    ensures
        some_name(names.take(k + 1), p) == (some_name(names.take(k), p) || p(names[k])),
{
    let short: Seq<Seq<char>> = names.take(k);
    let long: Seq<Seq<char>> = names.take(k + 1);
    if some_name(short, p) {
        let i: int = choose|i: int| 0 <= i < short.len() && p(#[trigger] short[i]);
        assert(long[i] == short[i]);
    }
    if p(names[k]) {
        assert(long[k] == names[k]);
    }
    if some_name(long, p) {
        let i: int = choose|i: int| 0 <= i < long.len() && p(#[trigger] long[i]);
        if i < k {
            assert(short[i] == long[i]);
        }
    }
}

/// Detect architecture by scanning tensor name patterns.
pub fn detect_from_tensor_names(tensors: &[GgufTensorInfo]) -> (r: ModelArchitecture)
    ensures
        r == architecture_of_names(names_of(tensors@)),
{
    let ghost names: Seq<Seq<char>> = names_of(tensors@);
    let mut has_attn: bool = false;
    let mut has_ssm: bool = false;
    let mut has_time_mix: bool = false;
    let mut has_channel_mix: bool = false;
    let mut has_rglru: bool = false;
    let mut has_lora: bool = false;
    let mut i: usize = 0;
    while i < tensors.len()
        invariant
            i <= tensors.len(),
            names == names_of(tensors@),
            has_attn == some_name(names.take(i as int), |n: Seq<char>| names_attention(n)),
            has_ssm == some_name(names.take(i as int), |n: Seq<char>| names_ssm(n)),
            has_time_mix == some_name(names.take(i as int), |n: Seq<char>| names_time_mix(n)),
            has_channel_mix == some_name(names.take(i as int), |n: Seq<char>| names_channel_mix(n)),
            has_rglru == some_name(names.take(i as int), |n: Seq<char>| names_recurrence(n)),
            has_lora == some_name(names.take(i as int), |n: Seq<char>| names_lora(n)),
        decreases tensors.len() - i,
    {
        let name: &str = tensors[i].name.as_str();
        proof {
            assert(names[i as int] == name@);
            some_name_extends(names, i as int, |n: Seq<char>| names_attention(n));
            some_name_extends(names, i as int, |n: Seq<char>| names_ssm(n));
            some_name_extends(names, i as int, |n: Seq<char>| names_time_mix(n));
            some_name_extends(names, i as int, |n: Seq<char>| names_channel_mix(n));
            some_name_extends(names, i as int, |n: Seq<char>| names_recurrence(n));
            some_name_extends(names, i as int, |n: Seq<char>| names_lora(n));
        }
        if contains_text(name, "attn_q.") || contains_text(name, "attn_k.") || contains_text(
            name,
            "attn_v.",
        ) {
            has_attn = true;
        }
        if contains_text(name, ".ssm_in.") || contains_text(name, ".ssm_out.") || contains_text(
            name,
            ".ssm_conv1d.",
        ) {
            has_ssm = true;
        }
        if contains_text(name, "time_mix_") {
            has_time_mix = true;
        }
        if contains_text(name, "channel_mix_") {
            has_channel_mix = true;
        }
        if contains_text(name, "rglru_") || contains_text(name, "recurrent_gate") {
            has_rglru = true;
        }
        if contains_text(name, "lora_") || contains_text(name, ".shared_attn.") {
            has_lora = true;
        }
        i = i + 1;
    }
    assert(names.take(names.len() as int) =~= names);
    if has_time_mix && has_channel_mix {
        return ModelArchitecture::Rwkv;
    }
    if has_attn && has_ssm && has_lora {
        return ModelArchitecture::Zamba;
    }
    if has_attn && has_ssm {
        return ModelArchitecture::Jamba;
    }
    if has_rglru {
        return ModelArchitecture::Griffin;
    }
    if has_attn && !has_ssm && !has_time_mix {
        return ModelArchitecture::Llama;
    }
    ModelArchitecture::Unknown
}

/// Detection does not depend on the order in which the tensors are listed.
pub proof fn detection_ignores_order(names: Seq<Seq<char>>, other: Seq<Seq<char>>)
    requires
        forall|n: Seq<char>| #[trigger] names.contains(n) <==> other.contains(n),
    ensures
        architecture_of_names(names) == architecture_of_names(other),
{
    assert forall|p: spec_fn(Seq<char>) -> bool| #[trigger] some_name(names, p) == some_name(
        other,
        p,
    ) by {
        if some_name(names, p) {
            let i: int = choose|i: int| 0 <= i < names.len() && p(#[trigger] names[i]);
            assert(names.contains(names[i]));
            let j: int = choose|j: int| 0 <= j < other.len() && other[j] == names[i];
            assert(p(other[j]));
        }
        if some_name(other, p) {
            let i: int = choose|i: int| 0 <= i < other.len() && p(#[trigger] other[i]);
            assert(other.contains(other[i]));
            assert(names.contains(other[i]));
            let j: int = choose|j: int| 0 <= j < names.len() && names[j] == other[i];
            assert(p(names[j]));
        }
    }
}

} // verus!
