//! Model architectures and the roles of weight tensors.

use crate::text::{
    chars_of, decimal, decimal_text, find_char, first_of, first_of_is_first, lowercase,
    lowercase_of,
    same_text,
};
use vstd::prelude::*;
use vstd::string::*;

verus! {

/// Supported model architectures.
#[derive(Debug, Clone, Copy, PartialEq, Eq, Hash, Structural)]
pub enum ModelArchitecture {
    Llama,
    Rwkv,
    Jamba,
    Griffin,
    Zamba,
    Unknown,
}

/// The architecture that a lowercase name stands for.
pub open spec fn architecture_named(lower: Seq<char>) -> ModelArchitecture {
    if lower == "llama"@ {
        ModelArchitecture::Llama
    } else if lower == "rwkv"@ || lower == "rwkv6"@ || lower == "rwkv7"@ {
        ModelArchitecture::Rwkv
    } else if lower == "jamba"@ {
        ModelArchitecture::Jamba
    } else if lower == "griffin"@ || lower == "recurrentgemma"@ {
        ModelArchitecture::Griffin
    } else if lower == "zamba"@ || lower == "zamba2"@ {
        ModelArchitecture::Zamba
    } else {
        ModelArchitecture::Unknown
    }
}

impl ModelArchitecture {
    /// Parse from the `general.architecture` metadata string, in any case.
    pub fn from_str_name(name: &str) -> (r: ModelArchitecture)
        ensures
            r == architecture_named(lowercase_of(name@)),
            vstd::utf8::is_ascii_chars(name@) ==> r == architecture_named(
                name@.map_values(|c: char| crate::text::ascii_lower(c)),
            ),
    {
        let lower: String = lowercase(name);
        Self::from_lowercase_name(lower.as_str())
    }

    /// The architecture that a lowercase name stands for.
    pub fn from_lowercase_name(lower: &str) -> (r: ModelArchitecture)
        ensures
            r == architecture_named(lower@),
    {
        if same_text(lower, "llama") {
            ModelArchitecture::Llama
        } else if same_text(lower, "rwkv") || same_text(lower, "rwkv6")
            || same_text(lower, "rwkv7") {
            ModelArchitecture::Rwkv
        } else if same_text(lower, "jamba") {
            ModelArchitecture::Jamba
        } else if same_text(lower, "griffin") || same_text(lower, "recurrentgemma") {
            ModelArchitecture::Griffin
        } else if same_text(lower, "zamba") || same_text(lower, "zamba2") {
            ModelArchitecture::Zamba
        } else {
            ModelArchitecture::Unknown
        }
    }
}

/// The role of a weight tensor in the model.
#[derive(Debug, Clone, Copy, PartialEq, Eq, Hash, Structural)]
pub enum WeightRole {
    // Common across architectures
    TokenEmbedding,
    OutputNorm,
    Output,
    // Attention
    AttnNorm,
    QProj,
    KProj,
    VProj,
    OutProj,
    // FFN
    FfnNorm,
    GateProj,
    UpProj,
    DownProj,
    // SSM (Mamba/Jamba)
    SSMIn,
    SSMOut,
    SSMConv1d,
    SSMDt,
    SSMA,
    SSMD,
    // RWKV specific
    TimeMixKey,
    TimeMixValue,
    TimeMixReceptance,
    TimeMixGate,
    TimeMixFirst,
    TimeMixDecay,
    ChannelMixKey,
    ChannelMixValue,
    ChannelMixReceptance,
    TimeMixLnX,
    // Griffin specific
    RecurrentGate,
    RecurrentLinear,
    RecurrentOut,
}

/// Roles of the tensors of an attention sublayer, by the end of the tensor's name.
pub open spec fn attention_role(suffix: Seq<char>) -> Option<WeightRole> {
    if suffix == "attn_norm.weight"@ {
        Some(WeightRole::AttnNorm)
    } else if suffix == "attn_q.weight"@ {
        Some(WeightRole::QProj)
    } else if suffix == "attn_k.weight"@ {
        Some(WeightRole::KProj)
    } else if suffix == "attn_v.weight"@ {
        Some(WeightRole::VProj)
    } else if suffix == "attn_output.weight"@ {
        Some(WeightRole::OutProj)
    } else {
        None
    }
}

/// Roles of the tensors of a gated feed-forward sublayer.
pub open spec fn feed_forward_role(suffix: Seq<char>) -> Option<WeightRole> {
    if suffix == "ffn_norm.weight"@ {
        Some(WeightRole::FfnNorm)
    } else if suffix == "ffn_gate.weight"@ {
        Some(WeightRole::GateProj)
    } else if suffix == "ffn_up.weight"@ {
        Some(WeightRole::UpProj)
    } else if suffix == "ffn_down.weight"@ {
        Some(WeightRole::DownProj)
    } else {
        None
    }
}

/// Roles of the tensors of a state space sublayer.
pub open spec fn ssm_role(suffix: Seq<char>) -> Option<WeightRole> {
    if suffix == "ssm_in.weight"@ {
        Some(WeightRole::SSMIn)
    } else if suffix == "ssm_out.weight"@ {
        Some(WeightRole::SSMOut)
    } else if suffix == "ssm_conv1d.weight"@ {
        Some(WeightRole::SSMConv1d)
    } else if suffix == "ssm_dt.weight"@ {
        Some(WeightRole::SSMDt)
    } else if suffix == "ssm_a"@ {
        Some(WeightRole::SSMA)
    } else if suffix == "ssm_d"@ {
        Some(WeightRole::SSMD)
    } else {
        None
    }
}

/// Roles of the tensors of a recurrent Griffin sublayer.
pub open spec fn recurrent_role(suffix: Seq<char>) -> Option<WeightRole> {
    if suffix == "rglru_gate.weight"@ || suffix == "recurrent_gate.weight"@ {
        Some(WeightRole::RecurrentGate)
    } else if suffix == "rglru_a.weight"@ || suffix == "recurrent_linear.weight"@ {
        Some(WeightRole::RecurrentLinear)
    } else if suffix == "recurrent_out.weight"@ {
        Some(WeightRole::RecurrentOut)
    } else {
        None
    }
}

/// The first of two answers that is one.
pub open spec fn either(a: Option<WeightRole>, b: Option<WeightRole>) -> Option<WeightRole> {
    if a is Some {
        a
    } else {
        b
    }
}

/// Roles of the tensors of an RWKV layer.
pub open spec fn rwkv_role(suffix: Seq<char>) -> Option<WeightRole> {
    if suffix == "attn_norm.weight"@ {
        Some(WeightRole::AttnNorm)
    } else if suffix == "time_mix_key.weight"@ || suffix == "time_mix_k.weight"@ {
        Some(WeightRole::TimeMixKey)
    } else if suffix == "time_mix_value.weight"@ || suffix == "time_mix_v.weight"@ {
        Some(WeightRole::TimeMixValue)
    } else if suffix == "time_mix_receptance.weight"@ || suffix == "time_mix_r.weight"@ {
        Some(WeightRole::TimeMixReceptance)
    } else if suffix == "time_mix_gate.weight"@ || suffix == "time_mix_g.weight"@ {
        Some(WeightRole::TimeMixGate)
    } else if suffix == "time_mix_first.weight"@ {
        Some(WeightRole::TimeMixFirst)
    } else if suffix == "time_mix_decay.weight"@ || suffix == "time_mix_w.weight"@ {
        Some(WeightRole::TimeMixDecay)
    } else if suffix == "time_mix_ln.weight"@ {
        Some(WeightRole::TimeMixLnX)
    } else if suffix == "time_mix_output.weight"@ || suffix == "time_mix_o.weight"@ {
        Some(WeightRole::OutProj)
    } else if suffix == "ffn_norm.weight"@ || suffix == "channel_mix_norm.weight"@ {
        Some(WeightRole::FfnNorm)
    } else if suffix == "channel_mix_key.weight"@ {
        Some(WeightRole::ChannelMixKey)
    } else if suffix == "channel_mix_value.weight"@ {
        Some(WeightRole::ChannelMixValue)
    } else if suffix == "channel_mix_receptance.weight"@ {
        Some(WeightRole::ChannelMixReceptance)
    } else {
        None
    }
}

/// The role of a layer's tensor in a model of the given architecture.
pub open spec fn layer_role(arch: ModelArchitecture, suffix: Seq<char>) -> Option<WeightRole> {
    match arch {
        ModelArchitecture::Llama
        | ModelArchitecture::Zamba
        | ModelArchitecture::Unknown => either(attention_role(suffix), feed_forward_role(suffix)),
        ModelArchitecture::Rwkv => rwkv_role(suffix),
        ModelArchitecture::Jamba => either(
            attention_role(suffix),
            either(ssm_role(suffix), feed_forward_role(suffix)),
        ),
        ModelArchitecture::Griffin => either(
            attention_role(suffix),
            either(recurrent_role(suffix), feed_forward_role(suffix)),
        ),
    }
}

/// Whether `c` is one of the ten decimal digits.
pub open spec fn is_digit(c: char) -> bool {
    '0' <= c <= '9'
}

/// The number that decimal digits spell.
pub open spec fn digits_value(digits: Seq<char>) -> nat
    decreases digits.len(),
{
    if digits.len() == 0 {
        0
    } else {
        digits_value(digits.drop_last()) * 10 + (digits.last() as nat - '0' as nat) as nat
    }
}

/// Whether a text is made of decimal digits, at least one of them.
pub open spec fn all_digits(text: Seq<char>) -> bool {
    &&& text.len() > 0
    &&& forall|i: int| 0 <= i < text.len() ==> is_digit(#[trigger] text[i])
}

/// A text without the `+` sign that it may start with.
pub open spec fn unsigned(text: Seq<char>) -> Seq<char> {
    if text.len() > 0 && text[0] == '+' {
        text.drop_first()
    } else {
        text
    }
}

/// The number that `text` spells: decimal digits after an optional `+` sign, with a value that
/// fits in `usize`.
pub open spec fn index_value(text: Seq<char>) -> Option<usize> {
    if all_digits(unsigned(text)) && digits_value(unsigned(text)) <= usize::MAX {
        Some(digits_value(unsigned(text)) as usize)
    } else {
        None
    }
}

/// Splits the name of a layer's tensor, "blk.N.rest", into N and the rest. The N ends at the
/// first dot behind the prefix.
pub open spec fn layer_and_suffix(name: Seq<char>) -> Option<(usize, Seq<char>)> {
    if name.len() >= 4 && name.take(4) == "blk."@ {
        let rest = name.skip(4);
        let dot = first_of(rest, '.');
        if dot < rest.len() {
            match index_value(rest.take(dot)) {
                Some(layer) => Some((layer, rest.skip(dot + 1))),
                None => None,
            }
        } else {
            None
        }
    } else {
        None
    }
}

/// The layer index and role of the tensor called `name`.
pub open spec fn role_of(arch: ModelArchitecture, name: Seq<char>) -> Option<
    (Option<usize>, WeightRole),
> {
    if name == "token_embd.weight"@ {
        Some((None, WeightRole::TokenEmbedding))
    } else if name == "output_norm.weight"@ {
        Some((None, WeightRole::OutputNorm))
    } else if name == "output.weight"@ {
        Some((None, WeightRole::Output))
    } else {
        match layer_and_suffix(name) {
            Some((layer, suffix)) => match layer_role(arch, suffix) {
                Some(role) => Some((Some(layer), role)),
                None => None,
            },
            None => None,
        }
    }
}

fn map_attention_suffix(suffix: &str) -> (r: Option<WeightRole>)
    ensures
        r == attention_role(suffix@),
{
    if same_text(suffix, "attn_norm.weight") {
        Some(WeightRole::AttnNorm)
    } else if same_text(suffix, "attn_q.weight") {
        Some(WeightRole::QProj)
    } else if same_text(suffix, "attn_k.weight") {
        Some(WeightRole::KProj)
    } else if same_text(suffix, "attn_v.weight") {
        Some(WeightRole::VProj)
    } else if same_text(suffix, "attn_output.weight") {
        Some(WeightRole::OutProj)
    } else {
        None
    }
}

fn map_feed_forward_suffix(suffix: &str) -> (r: Option<WeightRole>)
    ensures
        r == feed_forward_role(suffix@),
{
    if same_text(suffix, "ffn_norm.weight") {
        Some(WeightRole::FfnNorm)
    } else if same_text(suffix, "ffn_gate.weight") {
        Some(WeightRole::GateProj)
    } else if same_text(suffix, "ffn_up.weight") {
        Some(WeightRole::UpProj)
    } else if same_text(suffix, "ffn_down.weight") {
        Some(WeightRole::DownProj)
    } else {
        None
    }
}

fn map_llama_suffix(suffix: &str) -> (r: Option<WeightRole>)
    ensures
        r == layer_role(ModelArchitecture::Llama, suffix@),
{
    match map_attention_suffix(suffix) {
        Some(role) => Some(role),
        None => map_feed_forward_suffix(suffix),
    }
}

fn map_rwkv_suffix(suffix: &str) -> (r: Option<WeightRole>)
    ensures
        r == rwkv_role(suffix@),
{
    if same_text(suffix, "attn_norm.weight") {
        Some(WeightRole::AttnNorm)
    } else if same_text(suffix, "time_mix_key.weight") || same_text(suffix, "time_mix_k.weight") {
        Some(WeightRole::TimeMixKey)
    } else if same_text(suffix, "time_mix_value.weight") || same_text(suffix, "time_mix_v.weight") {
        Some(WeightRole::TimeMixValue)
    } else if same_text(suffix, "time_mix_receptance.weight")
        || same_text(suffix, "time_mix_r.weight") {
        Some(WeightRole::TimeMixReceptance)
    } else if same_text(suffix, "time_mix_gate.weight") || same_text(suffix, "time_mix_g.weight") {
        Some(WeightRole::TimeMixGate)
    } else if same_text(suffix, "time_mix_first.weight") {
        Some(WeightRole::TimeMixFirst)
    } else if same_text(suffix, "time_mix_decay.weight") || same_text(suffix, "time_mix_w.weight") {
        Some(WeightRole::TimeMixDecay)
    } else if same_text(suffix, "time_mix_ln.weight") {
        Some(WeightRole::TimeMixLnX)
    } else if same_text(suffix, "time_mix_output.weight")
        || same_text(suffix, "time_mix_o.weight") {
        Some(WeightRole::OutProj)
    } else if same_text(suffix, "ffn_norm.weight") || same_text(suffix, "channel_mix_norm.weight") {
        Some(WeightRole::FfnNorm)
    } else if same_text(suffix, "channel_mix_key.weight") {
        Some(WeightRole::ChannelMixKey)
    } else if same_text(suffix, "channel_mix_value.weight") {
        Some(WeightRole::ChannelMixValue)
    } else if same_text(suffix, "channel_mix_receptance.weight") {
        Some(WeightRole::ChannelMixReceptance)
    } else {
        None
    }
}

fn map_jamba_suffix(suffix: &str) -> (r: Option<WeightRole>)
    ensures
        r == layer_role(ModelArchitecture::Jamba, suffix@),
{
    match map_attention_suffix(suffix) {
        Some(role) => Some(role),
        None => if same_text(suffix, "ssm_in.weight") {
            Some(WeightRole::SSMIn)
        } else if same_text(suffix, "ssm_out.weight") {
            Some(WeightRole::SSMOut)
        } else if same_text(suffix, "ssm_conv1d.weight") {
            Some(WeightRole::SSMConv1d)
        } else if same_text(suffix, "ssm_dt.weight") {
            Some(WeightRole::SSMDt)
        } else if same_text(suffix, "ssm_a") {
            Some(WeightRole::SSMA)
        } else if same_text(suffix, "ssm_d") {
            Some(WeightRole::SSMD)
        } else {
            map_feed_forward_suffix(suffix)
        },
    }
}

fn map_griffin_suffix(suffix: &str) -> (r: Option<WeightRole>)
    ensures
        r == layer_role(ModelArchitecture::Griffin, suffix@),
{
    match map_attention_suffix(suffix) {
        Some(role) => Some(role),
        None => if same_text(suffix, "rglru_gate.weight")
            || same_text(suffix, "recurrent_gate.weight") {
            Some(WeightRole::RecurrentGate)
        } else if same_text(suffix, "rglru_a.weight")
            || same_text(suffix, "recurrent_linear.weight") {
            Some(WeightRole::RecurrentLinear)
        } else if same_text(suffix, "recurrent_out.weight") {
            Some(WeightRole::RecurrentOut)
        } else {
            map_feed_forward_suffix(suffix)
        },
    }
}

proof fn digits_value_grows(digits: Seq<char>, k: int)
    requires
        0 <= k <= digits.len(),
    ensures
        digits_value(digits.take(k)) <= digits_value(digits),
    decreases digits.len(),
{
    if k == digits.len() {
        assert(digits.take(k) =~= digits);
    } else {
        let shorter: Seq<char> = digits.drop_last();
        digits_value_grows(shorter, k);
        assert(shorter.take(k) =~= digits.take(k));
    }
}

/// Reads a number of decimal digits, with an optional `+` in front.
pub fn parse_index(text: &[char]) -> (r: Option<usize>)
    ensures
        r == index_value(text@),
{
    let start: usize = if text.len() > 0 && text[0] == '+' {
        1
    } else {
        0
    };
    let ghost digits: Seq<char> = unsigned(text@);
    assert(digits =~= text@.skip(start as int));
    if start == text.len() {
        return None;
    }
    let mut value: usize = 0;
    let mut i: usize = start;
    while i < text.len()
        invariant
            start <= i <= text.len(),
            start <= 1,
            digits == unsigned(text@),
            digits == text@.skip(start as int),
            digits.len() > 0,
            forall|k: int| 0 <= k < i - start ==> is_digit(#[trigger] digits[k]),
            value == digits_value(digits.take(i - start)),
        decreases text.len() - i,
    {
        let c: char = text[i];
        assert(c == digits[i - start]);
        if !('0' <= c && c <= '9') {
            return None;
        }
        let d: usize = (c as u32 - '0' as u32) as usize;
        proof {
            let longer: Seq<char> = digits.take(i - start + 1);
            assert(longer.drop_last() =~= digits.take(i - start));
            assert(digits_value(longer) == value * 10 + d);
            digits_value_grows(digits, i - start + 1);
        }
        match value.checked_mul(10) {
            None => {
                return None;
            },
            Some(tens) => match tens.checked_add(d) {
                None => {
                    return None;
                },
                Some(sum) => {
                    value = sum;
                },
            },
        }
        i = i + 1;
    }
    assert(digits.take(digits.len() as int) =~= digits);
    Some(value)
}

/// Map a tensor name to its (layer_index, WeightRole) for a given architecture.
///
/// Returns None if the tensor name doesn't match known patterns.
pub fn map_tensor_name(arch: ModelArchitecture, name: &str) -> (r: Option<
    (Option<usize>, WeightRole),
>)
    ensures
        r == role_of(arch, name@),
{
    // Tensors that belong to no layer
    if same_text(name, "token_embd.weight") {
        return Some((None, WeightRole::TokenEmbedding));
    }
    if same_text(name, "output_norm.weight") {
        return Some((None, WeightRole::OutputNorm));
    }
    if same_text(name, "output.weight") {
        return Some((None, WeightRole::Output));
    }
    let chars: Vec<char> = chars_of(name);
    let text: &[char] = chars.as_slice();
    proof {
        reveal_strlit("blk.");
    }
    if text.len() < 4 || text[0] != 'b' || text[1] != 'l' || text[2] != 'k' || text[3] != '.' {
        assert(name@.len() >= 4 ==> name@.take(4)[0] == name@[0] && name@.take(4)[1] == name@[1]
            && name@.take(4)[2] == name@[2] && name@.take(4)[3] == name@[3]);
        return None;
    }
    assert(name@.take(4) =~= "blk."@);
    let dot: usize = find_char(text, '.', 4);
    if dot == text.len() {
        return None;
    }
    let index: Option<usize> = parse_index(vstd::slice::slice_subrange(text, 4, dot));
    let suffix: &str = name.substring_char(dot + 1, text.len());
    proof {
        assert(name@.skip(4).take(dot - 4) =~= name@.subrange(4, dot as int));
        assert(name@.skip(4).skip(dot - 4 + 1) =~= suffix@);
    }
    match index {
        None => None,
        Some(layer) => {
            let role: Option<WeightRole> = match arch {
                ModelArchitecture::Llama
                | ModelArchitecture::Zamba
                | ModelArchitecture::Unknown => map_llama_suffix(suffix),
                ModelArchitecture::Rwkv => map_rwkv_suffix(suffix),
                ModelArchitecture::Jamba => map_jamba_suffix(suffix),
                ModelArchitecture::Griffin => map_griffin_suffix(suffix),
            };
            match role {
                Some(r) => Some((Some(layer), r)),
                None => None,
            }
        },
    }
}

/// The name of a layer's tensor.
pub open spec fn layer_name(layer: nat, suffix: Seq<char>) -> Seq<char> {
    "blk."@ + decimal(layer) + "."@ + suffix
}

/// Spell the name of a layer's tensor.
pub fn layer_tensor_name(layer: usize, suffix: &str) -> (r: String)
    ensures
        r@ == layer_name(layer as nat, suffix@),
{
    let mut name: String = "blk.".to_owned();
    name.append(decimal_text(layer).as_str());
    name.append(".");
    name.append(suffix);
    name
}

/// Decimal digits spell the number that they were made from.
proof fn decimal_is_read_back(n: nat)
    ensures
        all_digits(decimal(n)),
        digits_value(decimal(n)) == n,
    decreases n,
{
    if n < 10 {
        let d: Seq<char> = decimal(n);
        assert(d.drop_last() =~= Seq::empty());
        assert(digits_value(d.drop_last()) == 0);
    } else {
        decimal_is_read_back(n / 10);
        let d: Seq<char> = decimal(n);
        assert(d.drop_last() =~= decimal(n / 10));
    }
}

/// The name of a layer's tensor leads back to the layer and to the role that the rest of the name
/// stands for.
pub proof fn layer_name_is_mapped_back(arch: ModelArchitecture, layer: usize, suffix: Seq<char>)
    ensures
        layer_and_suffix(layer_name(layer as nat, suffix)) == Some((layer, suffix)),
        role_of(arch, layer_name(layer as nat, suffix)) == match layer_role(arch, suffix) {
            Some(role) => Some((Some(layer), role)),
            None => None,
        },
{
    reveal_strlit("blk.");
    reveal_strlit(".");
    reveal_strlit("token_embd.weight");
    reveal_strlit("output_norm.weight");
    reveal_strlit("output.weight");
    let name: Seq<char> = layer_name(layer as nat, suffix);
    let digits: Seq<char> = decimal(layer as nat);
    decimal_is_read_back(layer as nat);
    assert(name.take(4) =~= "blk."@);
    let rest: Seq<char> = name.skip(4);
    assert(rest =~= digits + "."@ + suffix);
    let dot: int = first_of(rest, '.');
    first_of_is_first(rest, '.');
    assert(rest[digits.len() as int] == '.');
    assert forall|i: int| 0 <= i < digits.len() implies rest[i] != '.' by {
        assert(rest[i] == digits[i]);
    }
    assert(dot == digits.len());
    assert(rest.take(dot) =~= digits);
    assert(unsigned(digits) == digits);
    assert(rest.skip(dot + 1) =~= suffix);
    assert(name[0] == 'b');
}

} // verus!
