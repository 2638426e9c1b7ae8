//! Which architecture a model is taken for, by its metadata and its tensors.

use super::architectures::ModelArchitecture;
use super::detect::{
    detect_architecture, detect_from_tensor_names, names_attention, names_channel_mix, names_lora,
    names_of, names_recurrence, names_ssm, names_time_mix, some_name,
};
use super::metadata::{GgufMetadata, MetaValue};
use super::tensor::GgufTensorInfo;
use crate::text::{ascii_lower, contains_text, occurs_at, occurs_in};
use vstd::prelude::*;
use vstd::utf8::is_ascii_chars;

verus! {

/// Whether the characters of `part` stand in `text` from position `at` on.
pub open spec fn reads_at(text: Seq<char>, part: Seq<char>, at: int) -> bool {
    &&& 0 <= at
    &&& at + part.len() <= text.len()
    &&& forall|k: int| 0 <= k < part.len() ==> text[at + k] == #[trigger] part[k]
}

/// Whether some tensor has `part` somewhere in its name.
pub open spec fn some_tensor_has(tensors: Seq<GgufTensorInfo>, part: Seq<char>) -> bool {
    exists|i: int, at: int|
        0 <= i < tensors.len() && #[trigger] reads_at(tensors[i].name@, part, at)
}

/// A text contains another one exactly where its characters stand somewhere in a row.
pub proof fn containing_is_standing_somewhere(text: &str, needle: &str, r: bool)
    requires
        call_ensures(contains_text, (text, needle), r),
    ensures
        r <==> exists|at: int| reads_at(text@, needle@, at),
{
    occurring_is_reading(text@, needle@);
}

proof fn occurring_is_reading(text: Seq<char>, part: Seq<char>)
    ensures
        occurs_in(part, text) <==> exists|at: int| reads_at(text, part, at),
{
    if occurs_in(part, text) {
        let at: int = choose|at: int| occurs_at(part, text, at);
        assert(occurs_at(part, text, at));
        assert forall|k: int| 0 <= k < part.len() implies text[at + k] == #[trigger] part[k] by {
            assert(text.subrange(at, at + part.len())[k] == part[k]);
        }
        assert(reads_at(text, part, at));
    }
    if exists|at: int| reads_at(text, part, at) {
        let at: int = choose|at: int| reads_at(text, part, at);
        assert(text.subrange(at, at + part.len()) =~= part);
        assert(occurs_at(part, text, at));
    }
}

proof fn tensor_occurrence(tensors: Seq<GgufTensorInfo>, part: Seq<char>)
    ensures
        some_tensor_has(tensors, part) <==> some_name(
            names_of(tensors),
            |n: Seq<char>| occurs_in(part, n),
        ),
{
    let names: Seq<Seq<char>> = names_of(tensors);
    let p = |n: Seq<char>| occurs_in(part, n);
    if some_tensor_has(tensors, part) {
        let (i, at) = choose|i: int, at: int|
            0 <= i < tensors.len() && #[trigger] reads_at(tensors[i].name@, part, at);
        occurring_is_reading(tensors[i].name@, part);
        assert(names[i] == tensors[i].name@);
        assert(p(names[i]));
    }
    if some_name(names, p) {
        let i: int = choose|i: int| 0 <= i < names.len() && p(#[trigger] names[i]);
        occurring_is_reading(names[i], part);
        let at: int = choose|at: int| reads_at(names[i], part, at);
        assert(reads_at(tensors[i].name@, part, at));
    }
}

proof fn either_name(
    names: Seq<Seq<char>>,
    p: spec_fn(Seq<char>) -> bool,
    a: Seq<char>,
    b: Seq<char>,
    c: Seq<char>,
)
    requires
        forall|n: Seq<char>| #[trigger]
            p(n) <==> occurs_in(a, n) || occurs_in(b, n) || occurs_in(c, n),
    ensures
        some_name(names, p) <==> some_name(names, |n: Seq<char>| occurs_in(a, n)) || some_name(
            names,
            |n: Seq<char>| occurs_in(b, n),
        ) || some_name(names, |n: Seq<char>| occurs_in(c, n)),
{
    let pa = |n: Seq<char>| occurs_in(a, n);
    let pb = |n: Seq<char>| occurs_in(b, n);
    let pc = |n: Seq<char>| occurs_in(c, n);
    if some_name(names, p) {
        let i: int = choose|i: int| 0 <= i < names.len() && p(#[trigger] names[i]);
        assert(pa(names[i]) || pb(names[i]) || pc(names[i]));
    }
    if some_name(names, pa) {
        let i: int = choose|i: int| 0 <= i < names.len() && pa(#[trigger] names[i]);
        assert(p(names[i]));
    }
    if some_name(names, pb) {
        let i: int = choose|i: int| 0 <= i < names.len() && pb(#[trigger] names[i]);
        assert(p(names[i]));
    }
    if some_name(names, pc) {
        let i: int = choose|i: int| 0 <= i < names.len() && pc(#[trigger] names[i]);
        assert(p(names[i]));
    }
}

/// What the tensor names show: mixing blocks of both kinds make an RWKV model. Otherwise attention
/// beside state spaces makes a Zamba model where weights are shared, and a Jamba model where not.
/// Otherwise a gated recurrence makes a Griffin model. Otherwise attention makes a Llama model,
/// unless state spaces or time mixing stand beside it. Any other model is unknown.
pub proof fn tensors_show_the_architecture(tensors: &[GgufTensorInfo], r: ModelArchitecture)
    requires
        call_ensures(detect_from_tensor_names, (tensors,), r),
    ensures
        ({
            let found = |part: Seq<char>| some_tensor_has(tensors@, part);
            let attention = found("attn_q."@) || found("attn_k."@) || found("attn_v."@);
            let spaces = found(".ssm_in."@) || found(".ssm_out."@) || found(".ssm_conv1d."@);
            let mixing = found("time_mix_"@) && found("channel_mix_"@);
            let recurrence = found("rglru_"@) || found("recurrent_gate"@);
            let shared = found("lora_"@) || found(".shared_attn."@);
            &&& mixing <==> r == ModelArchitecture::Rwkv
            &&& !mixing && attention && spaces && shared <==> r == ModelArchitecture::Zamba
            &&& !mixing && attention && spaces && !shared <==> r == ModelArchitecture::Jamba
            &&& !mixing && !(attention && spaces) && recurrence <==> r
                == ModelArchitecture::Griffin
            &&& !found("time_mix_"@) && attention && !spaces && !recurrence <==> r
                == ModelArchitecture::Llama
        }),
{
    let names: Seq<Seq<char>> = names_of(tensors@);
    tensor_occurrence(tensors@, "attn_q."@);
    tensor_occurrence(tensors@, "attn_k."@);
    tensor_occurrence(tensors@, "attn_v."@);
    tensor_occurrence(tensors@, ".ssm_in."@);
    tensor_occurrence(tensors@, ".ssm_out."@);
    tensor_occurrence(tensors@, ".ssm_conv1d."@);
    tensor_occurrence(tensors@, "time_mix_"@);
    tensor_occurrence(tensors@, "channel_mix_"@);
    tensor_occurrence(tensors@, "rglru_"@);
    tensor_occurrence(tensors@, "recurrent_gate"@);
    tensor_occurrence(tensors@, "lora_"@);
    tensor_occurrence(tensors@, ".shared_attn."@);
    let attention = |n: Seq<char>| names_attention(n);
    either_name(names, attention, "attn_q."@, "attn_k."@, "attn_v."@);
    let ssm = |n: Seq<char>| names_ssm(n);
    either_name(names, ssm, ".ssm_in."@, ".ssm_out."@, ".ssm_conv1d."@);
    let time_mix = |n: Seq<char>| names_time_mix(n);
    either_name(names, time_mix, "time_mix_"@, "time_mix_"@, "time_mix_"@);
    let channel_mix = |n: Seq<char>| names_channel_mix(n);
    either_name(names, channel_mix, "channel_mix_"@, "channel_mix_"@, "channel_mix_"@);
    let recurrence = |n: Seq<char>| names_recurrence(n);
    either_name(names, recurrence, "rglru_"@, "recurrent_gate"@, "rglru_"@);
    let lora = |n: Seq<char>| names_lora(n);
    either_name(names, lora, "lora_"@, ".shared_attn."@, "lora_"@);
}

/// Whether `name` spells the lowercase word `word`, with letters of either case.
pub open spec fn spells_word(name: Seq<char>, word: Seq<char>) -> bool {
    &&& name.len() == word.len()
    &&& forall|i: int|
        0 <= i < word.len() ==> (#[trigger] name[i] == word[i] || 'A' <= name[i] <= 'Z'
            && name[i] as int + 32 == word[i] as int)
}

/// Whether a word is made of small letters and digits.
spec fn plain_word(word: Seq<char>) -> bool {
    forall|i: int|
        0 <= i < word.len() ==> ('a' <= #[trigger] word[i] <= 'z' || '0' <= word[i] <= '9')
}

proof fn lowered_word(name: Seq<char>, word: Seq<char>)
    requires
        is_ascii_chars(name),
        plain_word(word),
    ensures
        spells_word(name, word) <==> name.map_values(|c: char| ascii_lower(c)) == word,
{
    let lower: Seq<char> = name.map_values(|c: char| ascii_lower(c));
    if spells_word(name, word) {
        assert forall|i: int| 0 <= i < word.len() implies lower[i] == word[i] by {
            assert(name[i] == word[i] || name[i] as int + 32 == word[i] as int);
        }
        assert(lower =~= word);
    }
    if lower == word {
        assert forall|i: int| 0 <= i < word.len() implies (#[trigger] name[i] == word[i] || 'A'
            <= name[i] <= 'Z' && name[i] as int + 32 == word[i] as int) by {
            assert(lower[i] == ascii_lower(name[i]));
        }
    }
}

proof fn words_are_plain()
    ensures
        plain_word("llama"@),
        plain_word("rwkv"@),
        plain_word("rwkv6"@),
        plain_word("rwkv7"@),
        plain_word("jamba"@),
        plain_word("griffin"@),
        plain_word("recurrentgemma"@),
        plain_word("zamba"@),
        plain_word("zamba2"@),
{
    reveal_strlit("llama");
    reveal_strlit("rwkv");
    reveal_strlit("rwkv6");
    reveal_strlit("rwkv7");
    reveal_strlit("jamba");
    reveal_strlit("griffin");
    reveal_strlit("recurrentgemma");
    reveal_strlit("zamba");
    reveal_strlit("zamba2");
}

/// A name stands for an architecture exactly where it spells one of the architecture's words, with
/// letters of either case.
pub proof fn names_stand_for_architectures(name: &str, r: ModelArchitecture)
    requires
        is_ascii_chars(name@),
        call_ensures(ModelArchitecture::from_str_name, (name,), r),
    ensures
        r == ModelArchitecture::Llama <==> spells_word(name@, "llama"@),
        r == ModelArchitecture::Rwkv <==> spells_word(name@, "rwkv"@) || spells_word(
            name@,
            "rwkv6"@,
        ) || spells_word(name@, "rwkv7"@),
        r == ModelArchitecture::Jamba <==> spells_word(name@, "jamba"@),
        r == ModelArchitecture::Griffin <==> spells_word(name@, "griffin"@) || spells_word(
            name@,
            "recurrentgemma"@,
        ),
        r == ModelArchitecture::Zamba <==> spells_word(name@, "zamba"@) || spells_word(
            name@,
            "zamba2"@,
        ),
{
    words_are_plain();
    reveal_strlit("llama");
    reveal_strlit("rwkv");
    reveal_strlit("rwkv6");
    reveal_strlit("rwkv7");
    reveal_strlit("jamba");
    reveal_strlit("griffin");
    reveal_strlit("recurrentgemma");
    reveal_strlit("zamba");
    reveal_strlit("zamba2");
    let lower: Seq<char> = name@.map_values(|c: char| ascii_lower(c));
    assert(lower == "llama"@ ==> lower[0] == 'l');
    assert(lower == "rwkv6"@ ==> lower[0] == 'r');
    assert(lower == "rwkv7"@ ==> lower[0] == 'r');
    assert(lower == "jamba"@ ==> lower[0] == 'j');
    assert(lower == "zamba"@ ==> lower[0] == 'z');
    lowered_word(name@, "llama"@);
    lowered_word(name@, "rwkv"@);
    lowered_word(name@, "rwkv6"@);
    lowered_word(name@, "rwkv7"@);
    lowered_word(name@, "jamba"@);
    lowered_word(name@, "griffin"@);
    lowered_word(name@, "recurrentgemma"@);
    lowered_word(name@, "zamba"@);
    lowered_word(name@, "zamba2"@);
}

/// The architecture that the metadata names goes before what the tensors show. Where the metadata
/// names none, or one that is not known, the tensors decide.
pub proof fn metadata_goes_before_tensors(
    metadata: &GgufMetadata,
    tensors: &[GgufTensorInfo],
    name: &str,
    named: ModelArchitecture,
    shown: ModelArchitecture,
    r: ModelArchitecture,
)
    requires
        call_ensures(detect_architecture, (metadata, tensors), r),
        call_ensures(detect_from_tensor_names, (tensors,), shown),
        call_ensures(ModelArchitecture::from_str_name, (name,), named),
    ensures
        metadata@.contains_key("general.architecture"@) && metadata@["general.architecture"@]
            == MetaValue::Text(name@) ==> r == if named == ModelArchitecture::Unknown {
            shown
        } else {
            named
        },
        !metadata@.contains_key("general.architecture"@) ==> r == shown,
        metadata@.contains_key("general.architecture"@)
            && !(metadata@["general.architecture"@] is Text) ==> r == shown,
{
}

} // verus!
