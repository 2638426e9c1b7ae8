//! What each kernel is given, and when it is launched.
//!
//! Every law speaks of the plan that comes back, whatever it is made of: which of the caller's
//! inputs the kernel finds at each of its argument indices, which numbers, how much room there is
//! for output, and what is read back. Where no plan comes back, the law says why: a size that does
//! not fit, one that does not divide another, or the first input whose length is wrong.

use super::attention_plans::{
    plan_decode_attention, plan_flash_attention, plan_gqa_remap, plan_rope, plan_rope_apply,
};
use super::element_plans::{
    plan_dequantize_q4_0, plan_embedding_lookup, plan_ffn_silu, plan_matmul, plan_matvec_q4_0,
    plan_residual_add, plan_rmsnorm, plan_rmsnorm_optimized,
};
use super::recurrent_plans::{plan_prefix_sum, plan_rwkv_wkv, plan_ssm_scan};
use super::multi_pass_plans::{plan_linear_attention, plan_paged_attention, LinearPlan};
use super::dispatch::{groups_cover_exactly, row, GridRule};
use super::pipeline::{simple_key, ConstantType, KeyModel};
use super::program::{LaunchError, Operand, Program};
use super::signature::{constants_are_read, constants_read, Binding};
use vstd::prelude::*;

verus! {

/// Flash attention is given Q, K and V in this order, room for as much output as there are queries,
/// and the sizes. It is launched exactly when every input has the length that the sizes ask for.
pub proof fn flash_signature(
    q: usize,
    k: usize,
    v: usize,
    seq_len: usize,
    head_dim: usize,
    num_heads: usize,
    scale: u32,
    r: Result<Program, LaunchError>,
)
    requires
        call_ensures(plan_flash_attention, (q, k, v, seq_len, head_dim, num_heads, scale), r),
    ensures
        ({
            let n = seq_len * head_dim;
            let refused = |e: LaunchError| r == Err::<Program, LaunchError>(e);
            &&& r is Ok <==> {
                &&& n * 4 <= usize::MAX
                &&& q == n
                &&& k == n
                &&& v == n
            }
            &&& r is Err ==> {
                ||| refused(LaunchError::LengthMismatch(Operand::Q))
                ||| refused(LaunchError::LengthMismatch(Operand::K))
                ||| refused(LaunchError::LengthMismatch(Operand::V))
                ||| refused(LaunchError::Overflow)
            }
            &&& refused(LaunchError::LengthMismatch(Operand::Q)) ==> q != n
            &&& refused(LaunchError::LengthMismatch(Operand::K)) ==> {
                &&& q == n
                &&& k != n
            }
            &&& refused(LaunchError::LengthMismatch(Operand::V)) ==> {
                &&& q == n
                &&& k == n
                &&& v != n
            }
            &&& refused(LaunchError::Overflow) ==> !(n * 4 <= usize::MAX)
            &&& r matches Ok(p) ==> {
                &&& p.model().passes.len() == 1
                &&& p.model().runs(
                    0,
                    "flash_attention"@,
                    seq![
                        (0usize, ConstantType::UInt, head_dim as u32 as nat),
                        (1usize, ConstantType::UInt, 16nat),
                        (2usize, ConstantType::UInt, 64nat),
                        (4usize, ConstantType::Bool, 0nat),
                    ],
                )
                &&& p.model().binds(
                    0,
                    seq![
                        Operand::Q,
                        Operand::K,
                        Operand::V,
                    ],
                    seq![
                        Binding::Input(Operand::Q),
                        Binding::Input(Operand::K),
                        Binding::Input(Operand::V),
                        Binding::Room((n * 4) as nat),
                        Binding::Words(
                            seq![
                                seq_len as u32,
                                head_dim as u32,
                                num_heads as u32,
                                num_heads as u32,
                                16u32,
                                64u32,
                                scale,
                                0u32,
                                16u32,
                                0u32,
                                0u32,
                                1u32,
                                0u32,
                                0u32,
                                0u32,
                                0u32,
                            ],
                        ),
                    ],
                )
                &&& p.model().gives_back(0, seq![(3int, (n) as nat)])
                &&& p.model().passes[0].grid matches GridRule::Groups { groups, group_width }
                    && groups.height == num_heads
                    && groups.depth == 1
                    && group_width == 32
                    && groups.width * 16 >= seq_len
                    && (seq_len > 0 ==> (groups.width - 1) * 16 < seq_len)
            }
        }),
{
    groups_cover_exactly(seq_len as nat, 16);
    let key: KeyModel = simple_key("flash_attention"@);
    assert(constants_read(key) =~= Seq::empty());
    constants_are_read(key, 0, head_dim as u32, false);
    constants_are_read(key.uint(0, head_dim as u32), 1, 16, false);
    constants_are_read(key.uint(0, head_dim as u32).uint(1, 16), 2, 64, false);
    constants_are_read(key.uint(0, head_dim as u32).uint(1, 16).uint(2, 64), 4, 0, false);
    let tiled: KeyModel = key.uint(0, head_dim as u32).uint(1, 16).uint(2, 64).boolean(4, false);
    assert(constants_read(tiled) =~= seq![
        (0usize, ConstantType::UInt, head_dim as u32 as nat),
        (1usize, ConstantType::UInt, 16nat),
        (2usize, ConstantType::UInt, 64nat),
        (4usize, ConstantType::Bool, 0nat),
    ]);
}

/// Decode attention is given the query, the key cache and the value cache in this order, room for
/// one output row of each head, and the sizes. It is launched exactly when every input has the
/// length that the sizes ask for.
pub proof fn decode_signature(
    q: usize,
    k_cache: usize,
    v_cache: usize,
    num_heads: usize,
    num_kv_heads: usize,
    head_dim: usize,
    kv_len: usize,
    scale: u32,
    r: Result<Program, LaunchError>,
)
    requires
        call_ensures(
            plan_decode_attention,
            (q, k_cache, v_cache, num_heads, num_kv_heads, head_dim, kv_len, scale),
            r,
        ),
    ensures
        ({
            let out = num_heads * head_dim;
            let kv_dim = num_kv_heads * head_dim;
            let cached = kv_len * kv_dim;
            let refused = |e: LaunchError| r == Err::<Program, LaunchError>(e);
            &&& r is Ok <==> {
                &&& out * 4 <= usize::MAX
                &&& kv_dim * 4 <= usize::MAX
                &&& cached * 4 <= usize::MAX
                &&& q == out
                &&& k_cache == cached
                &&& v_cache == cached
                &&& kv_len <= 2048
                &&& num_kv_heads > 0
                &&& num_heads % num_kv_heads == 0
            }
            &&& r is Err ==> {
                ||| refused(LaunchError::LengthMismatch(Operand::Q))
                ||| refused(LaunchError::LengthMismatch(Operand::KCache))
                ||| refused(LaunchError::LengthMismatch(Operand::VCache))
                ||| refused(LaunchError::Overflow)
                ||| refused(LaunchError::NotDivisible)
                ||| refused(LaunchError::TooLong)
            }
            &&& refused(LaunchError::LengthMismatch(Operand::Q)) ==> q != out
            &&& refused(LaunchError::LengthMismatch(Operand::KCache)) ==> {
                &&& q == out
                &&& k_cache != cached
            }
            &&& refused(LaunchError::LengthMismatch(Operand::VCache)) ==> {
                &&& q == out
                &&& k_cache == cached
                &&& v_cache != cached
            }
            &&& refused(LaunchError::Overflow) ==> !{
                &&& out * 4 <= usize::MAX
                &&& kv_dim * 4 <= usize::MAX
                &&& cached * 4 <= usize::MAX
            }
            &&& refused(LaunchError::NotDivisible) ==> !{
                &&& num_kv_heads > 0
                &&& num_heads % num_kv_heads == 0
            }
            &&& refused(LaunchError::TooLong) ==> !(kv_len <= 2048)
            &&& r matches Ok(p) ==> {
                &&& p.model().passes.len() == 1
                &&& p.model().runs(
                    0,
                    "decode_attention"@,
                    Seq::empty(),
                )
                &&& p.model().binds(
                    0,
                    seq![
                        Operand::Q,
                        Operand::KCache,
                        Operand::VCache,
                    ],
                    seq![
                        Binding::Input(Operand::Q),
                        Binding::Input(Operand::KCache),
                        Binding::Input(Operand::VCache),
                        Binding::Room((out * 4) as nat),
                        Binding::Words(seq![num_heads as u32]),
                        Binding::Words(seq![num_kv_heads as u32]),
                        Binding::Words(seq![head_dim as u32]),
                        Binding::Words(seq![kv_len as u32]),
                        Binding::Words(seq![scale]),
                    ],
                )
                &&& p.model().gives_back(0, seq![(3int, (out) as nat)])
                &&& p.model().passes[0].grid matches GridRule::Groups { groups, group_width }
                    && groups == row(num_heads)
                    && group_width == 32
            }
        }),
{
    let key: KeyModel = simple_key("decode_attention"@);
    assert(constants_read(key) =~= Seq::empty());
}

/// Rotary encoding is given Q and K in this order and the sizes, and both are read back from where
/// they were. It is launched exactly when every input has the length that the sizes ask for.
pub proof fn rope_signature(
    q: usize,
    k: usize,
    seq_len: usize,
    head_dim: usize,
    r: Result<Program, LaunchError>,
)
    requires
        call_ensures(plan_rope, (q, k, seq_len, head_dim), r),
    ensures
        ({
            let n = seq_len * head_dim;
            let refused = |e: LaunchError| r == Err::<Program, LaunchError>(e);
            &&& r is Ok <==> {
                &&& n * 4 <= usize::MAX
                &&& q == n
                &&& k == n
                &&& head_dim % 2 == 0
            }
            &&& r is Err ==> {
                ||| refused(LaunchError::LengthMismatch(Operand::Q))
                ||| refused(LaunchError::LengthMismatch(Operand::K))
                ||| refused(LaunchError::Overflow)
                ||| refused(LaunchError::NotDivisible)
            }
            &&& refused(LaunchError::LengthMismatch(Operand::Q)) ==> q != n
            &&& refused(LaunchError::LengthMismatch(Operand::K)) ==> {
                &&& q == n
                &&& k != n
            }
            &&& refused(LaunchError::Overflow) ==> !(n * 4 <= usize::MAX)
            &&& refused(LaunchError::NotDivisible) ==> !(head_dim % 2 == 0)
            &&& r matches Ok(p) ==> {
                &&& p.model().passes.len() == 1
                &&& p.model().runs(
                    0,
                    "apply_rope"@,
                    Seq::empty(),
                )
                &&& p.model().binds(
                    0,
                    seq![
                        Operand::Q,
                        Operand::K,
                    ],
                    seq![
                        Binding::Input(Operand::Q),
                        Binding::Input(Operand::K),
                        Binding::Words(
                            seq![
                                seq_len as u32,
                                head_dim as u32,
                                1u32,
                                1u32,
                                16u32,
                                64u32,
                                0x3E00_0000u32,
                                0u32,
                                16u32,
                                0u32,
                                0u32,
                                1u32,
                                0u32,
                                0u32,
                                0u32,
                                0u32,
                            ],
                        ),
                    ],
                )
                &&& p.model().gives_back(0, seq![(0int, (n) as nat), (1int, (n) as nat)])
                &&& p.model().passes[0].grid matches GridRule::Threads { threads, group }
                    && threads.width == seq_len
                    && threads.height * 2 == head_dim
                    && threads.depth == 1
                    && group.width == (if seq_len <= 16 { seq_len as int } else { 16 })
                    && group.height == (if threads.height <= 16 {
                        threads.height as int
                    } else {
                        16
                    })
                    && group.depth == 1
            }
        }),
{
    let key: KeyModel = simple_key("apply_rope"@);
    assert(constants_read(key) =~= Seq::empty());
}

/// Rotary encoding of one token is given the vector, the sizes, the position and the base, and the
/// vector is read back from where it was. It is launched exactly when every input has the length
/// that the sizes ask for.
pub proof fn rope_apply_signature(
    qk: usize,
    num_heads: usize,
    head_dim: usize,
    position: usize,
    theta: u32,
    r: Result<Program, LaunchError>,
)
    requires
        call_ensures(plan_rope_apply, (qk, num_heads, head_dim, position, theta), r),
    ensures
        ({
            let n = num_heads * head_dim;
            let refused = |e: LaunchError| r == Err::<Program, LaunchError>(e);
            &&& r is Ok <==> {
                &&& n * 4 <= usize::MAX
                &&& qk == n
                &&& head_dim % 2 == 0
            }
            &&& r is Err ==> {
                ||| refused(LaunchError::LengthMismatch(Operand::Qk))
                ||| refused(LaunchError::Overflow)
                ||| refused(LaunchError::NotDivisible)
            }
            &&& refused(LaunchError::LengthMismatch(Operand::Qk)) ==> qk != n
            &&& refused(LaunchError::Overflow) ==> !(n * 4 <= usize::MAX)
            &&& refused(LaunchError::NotDivisible) ==> !(head_dim % 2 == 0)
            &&& r matches Ok(p) ==> {
                &&& p.model().passes.len() == 1
                &&& p.model().runs(
                    0,
                    "rope_apply"@,
                    Seq::empty(),
                )
                &&& p.model().binds(
                    0,
                    seq![
                        Operand::Qk,
                    ],
                    seq![
                        Binding::Input(Operand::Qk),
                        Binding::Words(seq![num_heads as u32]),
                        Binding::Words(seq![head_dim as u32]),
                        Binding::Words(seq![position as u32]),
                        Binding::Words(seq![theta]),
                    ],
                )
                &&& p.model().gives_back(0, seq![(0int, (n) as nat)])
                &&& p.model().passes[0].grid matches GridRule::Threads { threads, group }
                    && threads == row((n / 2) as usize)
                    && group == row(32)
            }
        }),
{
    let key: KeyModel = simple_key("rope_apply"@);
    assert(constants_read(key) =~= Seq::empty());
}

/// The expansion of KV heads is given the keys, room for a copy for every query head, and the
/// sizes. It is launched exactly when every input has the length that the sizes ask for.
pub proof fn gqa_signature(
    k_full: usize,
    seq_len: usize,
    head_dim: usize,
    num_heads: usize,
    num_kv_heads: usize,
    scale: u32,
    r: Result<Program, LaunchError>,
)
    requires
        call_ensures(
            plan_gqa_remap,
            (k_full, seq_len, head_dim, num_heads, num_kv_heads, scale),
            r,
        ),
    ensures
        ({
            let head = seq_len * head_dim;
            let given = num_kv_heads * head;
            let expanded = num_heads * head;
            let refused = |e: LaunchError| r == Err::<Program, LaunchError>(e);
            &&& r is Ok <==> {
                &&& head * 4 <= usize::MAX
                &&& given * 4 <= usize::MAX
                &&& expanded * 4 <= usize::MAX
                &&& k_full == given
                &&& (num_kv_heads == 0 ==> num_heads == 0)
                &&& (num_kv_heads > 0 ==> num_heads % num_kv_heads == 0)
            }
            &&& r is Err ==> {
                ||| refused(LaunchError::LengthMismatch(Operand::KFull))
                ||| refused(LaunchError::Overflow)
                ||| refused(LaunchError::NotDivisible)
            }
            &&& refused(LaunchError::LengthMismatch(Operand::KFull)) ==> k_full != given
            &&& refused(LaunchError::Overflow) ==> !{
                &&& head * 4 <= usize::MAX
                &&& given * 4 <= usize::MAX
                &&& expanded * 4 <= usize::MAX
            }
            &&& refused(LaunchError::NotDivisible) ==> !{
                &&& (num_kv_heads == 0 ==> num_heads == 0)
                &&& (num_kv_heads > 0 ==> num_heads % num_kv_heads == 0)
            }
            &&& r matches Ok(p) ==> {
                &&& p.model().passes.len() == 1
                &&& p.model().runs(
                    0,
                    "gqa_remap"@,
                    Seq::empty(),
                )
                &&& p.model().binds(
                    0,
                    seq![
                        Operand::KFull,
                    ],
                    seq![
                        Binding::Input(Operand::KFull),
                        Binding::Room((expanded * 4) as nat),
                        Binding::Words(
                            seq![
                                seq_len as u32,
                                head_dim as u32,
                                num_heads as u32,
                                num_kv_heads as u32,
                                16u32,
                                64u32,
                                scale,
                                3u32,
                                16u32,
                                0u32,
                                0u32,
                                1u32,
                                0u32,
                                0u32,
                                0u32,
                                0u32,
                            ],
                        ),
                    ],
                )
                &&& p.model().gives_back(0, seq![(1int, (expanded) as nat)])
                &&& p.model().passes[0].grid matches GridRule::Threads { threads, group }
                    && threads.width == num_heads
                    && threads.height == seq_len
                    && threads.depth == head_dim
                    && group.width == (if num_heads <= 4 { num_heads as int } else { 4 })
                    && group.height == (if seq_len <= 4 { seq_len as int } else { 4 })
                    && group.depth == (if head_dim <= 16 { head_dim as int } else { 16 })
            }
        }),
{
    let key: KeyModel = simple_key("gqa_remap"@);
    assert(constants_read(key) =~= Seq::empty());
}

/// RMSNorm is given the input, the weight, room for as much output, and the sizes. It is launched
/// exactly when every input has the length that the sizes ask for.
pub proof fn rmsnorm_signature(
    input: usize,
    weight: usize,
    num_tokens: usize,
    hidden_dim: usize,
    eps: u32,
    r: Result<Program, LaunchError>,
)
    requires
        call_ensures(plan_rmsnorm, (input, weight, num_tokens, hidden_dim, eps), r),
    ensures
        ({
            let n = num_tokens * hidden_dim;
            let refused = |e: LaunchError| r == Err::<Program, LaunchError>(e);
            &&& r is Ok <==> {
                &&& n * 4 <= usize::MAX
                &&& input == n
                &&& weight == hidden_dim
            }
            &&& r is Err ==> {
                ||| refused(LaunchError::LengthMismatch(Operand::Input))
                ||| refused(LaunchError::LengthMismatch(Operand::Weight))
                ||| refused(LaunchError::Overflow)
            }
            &&& refused(LaunchError::LengthMismatch(Operand::Input)) ==> input != n
            &&& refused(LaunchError::LengthMismatch(Operand::Weight)) ==> {
                &&& input == n
                &&& weight != hidden_dim
            }
            &&& refused(LaunchError::Overflow) ==> !(n * 4 <= usize::MAX)
            &&& r matches Ok(p) ==> {
                &&& p.model().passes.len() == 1
                &&& p.model().runs(
                    0,
                    "rmsnorm"@,
                    Seq::empty(),
                )
                &&& p.model().binds(
                    0,
                    seq![
                        Operand::Input,
                        Operand::Weight,
                    ],
                    seq![
                        Binding::Input(Operand::Input),
                        Binding::Input(Operand::Weight),
                        Binding::Room((n * 4) as nat),
                        Binding::Words(
                            seq![
                                hidden_dim as u32,
                                11008u32,
                                32u32,
                                32u32,
                                128u32,
                                32000u32,
                                0u32,
                                32u32,
                                eps,
                                0x461C_4000u32,
                                num_tokens as u32,
                                1u32,
                                0u32,
                                0u32,
                                0u32,
                                0u32,
                            ],
                        ),
                    ],
                )
                &&& p.model().gives_back(0, seq![(2int, (n) as nat)])
                &&& p.model().passes[0].grid matches GridRule::ThreadsUpTo { total, limit }
                    && total == n
                    && limit == 256
            }
        }),
{
    let key: KeyModel = simple_key("rmsnorm"@);
    assert(constants_read(key) =~= Seq::empty());
}

/// RMSNorm of one token is given the input, the weight, room for as much output, the size and the
/// epsilon. It is launched exactly when every input has the length that the sizes ask for.
pub proof fn rmsnorm_optimized_signature(
    weight: usize,
    hidden_dim: usize,
    eps: u32,
    r: Result<Program, LaunchError>,
)
    requires
        call_ensures(plan_rmsnorm_optimized, (weight, hidden_dim, eps), r),
    ensures
        ({
            let n = hidden_dim as nat;
            let refused = |e: LaunchError| r == Err::<Program, LaunchError>(e);
            &&& r is Ok <==> {
                &&& n * 4 <= usize::MAX
                &&& weight == n
            }
            &&& r is Err ==> {
                ||| refused(LaunchError::LengthMismatch(Operand::Weight))
                ||| refused(LaunchError::Overflow)
            }
            &&& refused(LaunchError::LengthMismatch(Operand::Weight)) ==> weight != n
            &&& refused(LaunchError::Overflow) ==> !(n * 4 <= usize::MAX)
            &&& r matches Ok(p) ==> {
                &&& p.model().passes.len() == 1
                &&& p.model().runs(
                    0,
                    "rmsnorm_optimized"@,
                    Seq::empty(),
                )
                &&& p.model().binds(
                    0,
                    seq![
                        Operand::Input,
                        Operand::Weight,
                    ],
                    seq![
                        Binding::Input(Operand::Input),
                        Binding::Input(Operand::Weight),
                        Binding::Room((n * 4) as nat),
                        Binding::Words(seq![hidden_dim as u32]),
                        Binding::Words(seq![eps]),
                    ],
                )
                &&& p.model().gives_back(0, seq![(2int, (n) as nat)])
                &&& p.model().passes[0].grid matches GridRule::Groups { groups, group_width }
                    && groups == row(1)
                    && group_width == 32
            }
        }),
{
    let key: KeyModel = simple_key("rmsnorm_optimized"@);
    assert(constants_read(key) =~= Seq::empty());
}

/// The SwiGLU activation finds its gating factor behind an argument that it does not use, then the
/// other factor, room for as much output, and the sizes. It is launched exactly when every input
/// has the length that the sizes ask for.
pub proof fn ffn_silu_signature(
    gate: usize,
    up: usize,
    num_tokens: usize,
    intermediate_dim: usize,
    r: Result<Program, LaunchError>,
)
    requires
        call_ensures(plan_ffn_silu, (gate, up, num_tokens, intermediate_dim), r),
    ensures
        ({
            let n = num_tokens * intermediate_dim;
            let refused = |e: LaunchError| r == Err::<Program, LaunchError>(e);
            &&& r is Ok <==> {
                &&& n * 4 <= usize::MAX
                &&& gate == n
                &&& up == n
            }
            &&& r is Err ==> {
                ||| refused(LaunchError::LengthMismatch(Operand::Gate))
                ||| refused(LaunchError::LengthMismatch(Operand::Up))
                ||| refused(LaunchError::Overflow)
            }
            &&& refused(LaunchError::LengthMismatch(Operand::Gate)) ==> gate != n
            &&& refused(LaunchError::LengthMismatch(Operand::Up)) ==> {
                &&& gate == n
                &&& up != n
            }
            &&& refused(LaunchError::Overflow) ==> !(n * 4 <= usize::MAX)
            &&& r matches Ok(p) ==> {
                &&& p.model().passes.len() == 1
                &&& p.model().runs(
                    0,
                    "ffn_silu"@,
                    Seq::empty(),
                )
                &&& p.model().binds(
                    0,
                    seq![
                        Operand::Gate,
                        Operand::Up,
                    ],
                    seq![
                        Binding::Room((4) as nat),
                        Binding::Input(Operand::Gate),
                        Binding::Input(Operand::Up),
                        Binding::Room((n * 4) as nat),
                        Binding::Words(
                            seq![
                                4096u32,
                                intermediate_dim as u32,
                                32u32,
                                32u32,
                                128u32,
                                32000u32,
                                0u32,
                                32u32,
                                0x3727_C5ACu32,
                                0x461C_4000u32,
                                num_tokens as u32,
                                1u32,
                                0u32,
                                0u32,
                                0u32,
                                0u32,
                            ],
                        ),
                    ],
                )
                &&& p.model().gives_back(0, seq![(3int, (n) as nat)])
                &&& p.model().passes[0].grid matches GridRule::ThreadsUpTo { total, limit }
                    && total == n
                    && limit == 256
            }
        }),
{
    let key: KeyModel = simple_key("ffn_silu"@);
    assert(constants_read(key) =~= Seq::empty());
}

/// An embedding lookup is given the table, the token numbers, room for a row for each of them, and
/// the sizes. It is launched exactly when every input has the length that the sizes ask for.
pub proof fn embedding_signature(
    token_ids: usize,
    seq_len: usize,
    hidden_dim: usize,
    r: Result<Program, LaunchError>,
)
    requires
        call_ensures(plan_embedding_lookup, (token_ids, seq_len, hidden_dim), r),
    ensures
        ({
            let n = seq_len * hidden_dim;
            let refused = |e: LaunchError| r == Err::<Program, LaunchError>(e);
            &&& r is Ok <==> {
                &&& n * 4 <= usize::MAX
                &&& token_ids == seq_len
            }
            &&& r is Err ==> {
                ||| refused(LaunchError::LengthMismatch(Operand::TokenIds))
                ||| refused(LaunchError::Overflow)
            }
            &&& refused(LaunchError::LengthMismatch(Operand::TokenIds)) ==> token_ids != seq_len
            &&& refused(LaunchError::Overflow) ==> !(n * 4 <= usize::MAX)
            &&& r matches Ok(p) ==> {
                &&& p.model().passes.len() == 1
                &&& p.model().runs(
                    0,
                    "embedding_lookup"@,
                    Seq::empty(),
                )
                &&& p.model().binds(
                    0,
                    seq![
                        Operand::Weight,
                        Operand::TokenIds,
                    ],
                    seq![
                        Binding::Input(Operand::Weight),
                        Binding::Input(Operand::TokenIds),
                        Binding::Room((n * 4) as nat),
                        Binding::Words(
                            seq![
                                hidden_dim as u32,
                                11008u32,
                                32u32,
                                32u32,
                                128u32,
                                32000u32,
                                0u32,
                                32u32,
                                0x3727_C5ACu32,
                                0x461C_4000u32,
                                seq_len as u32,
                                1u32,
                                0u32,
                                0u32,
                                0u32,
                                0u32,
                            ],
                        ),
                    ],
                )
                &&& p.model().gives_back(0, seq![(2int, (n) as nat)])
                &&& p.model().passes[0].grid matches GridRule::ThreadsUpTo { total, limit }
                    && total == n
                    && limit == 256
            }
        }),
{
    let key: KeyModel = simple_key("embedding_lookup"@);
    assert(constants_read(key) =~= Seq::empty());
}

/// A matrix product is given the left factor, the right factor and room for m by n floats, and is
/// compiled for the sizes. It is launched exactly when every input has the length that the sizes
/// ask for.
pub proof fn matmul_signature(
    a: usize,
    b: usize,
    m: usize,
    n: usize,
    k: usize,
    r: Result<Program, LaunchError>,
)
    requires
        call_ensures(plan_matmul, (a, b, m, n, k), r),
    ensures
        ({
            let total = m * n;
            let refused = |e: LaunchError| r == Err::<Program, LaunchError>(e);
            &&& r is Ok <==> {
                &&& m * k * 4 <= usize::MAX
                &&& k * n * 4 <= usize::MAX
                &&& total * 4 <= usize::MAX
                &&& a == m * k
                &&& b == k * n
            }
            &&& r is Err ==> {
                ||| refused(LaunchError::LengthMismatch(Operand::A))
                ||| refused(LaunchError::LengthMismatch(Operand::B))
                ||| refused(LaunchError::Overflow)
            }
            &&& refused(LaunchError::LengthMismatch(Operand::A)) ==> a != m * k
            &&& refused(LaunchError::LengthMismatch(Operand::B)) ==> {
                &&& a == m * k
                &&& b != k * n
            }
            &&& refused(LaunchError::Overflow) ==> !{
                &&& m * k * 4 <= usize::MAX
                &&& k * n * 4 <= usize::MAX
                &&& total * 4 <= usize::MAX
            }
            &&& r matches Ok(p) ==> {
                &&& p.model().passes.len() == 1
                &&& p.model().runs(
                    0,
                    "matmul"@,
                    seq![
                        (0usize, ConstantType::UInt, m as u32 as nat),
                        (1usize, ConstantType::UInt, n as u32 as nat),
                        (2usize, ConstantType::UInt, k as u32 as nat),
                    ],
                )
                &&& p.model().binds(
                    0,
                    seq![
                        Operand::A,
                        Operand::B,
                    ],
                    seq![
                        Binding::Input(Operand::A),
                        Binding::Input(Operand::B),
                        Binding::Room((total * 4) as nat),
                    ],
                )
                &&& p.model().gives_back(0, seq![(2int, (total) as nat)])
                &&& p.model().passes[0].grid matches GridRule::ThreadsUpTo { total: threads, limit }
                    && threads == total
                    && limit == 256
            }
        }),
{
    let key: KeyModel = simple_key("matmul"@);
    assert(constants_read(key) =~= Seq::empty());
    constants_are_read(key, 0, m as u32, false);
    constants_are_read(key.uint(0, m as u32), 1, n as u32, false);
    constants_are_read(key.uint(0, m as u32).uint(1, n as u32), 2, k as u32, false);
    assert(constants_read(key.uint(0, m as u32).uint(1, n as u32).uint(2, k as u32)) =~= seq![
        (0usize, ConstantType::UInt, m as u32 as nat),
        (1usize, ConstantType::UInt, n as u32 as nat),
        (2usize, ConstantType::UInt, k as u32 as nat),
    ]);
}

/// A product with a Q4_0 matrix is given the packed matrix, the vector, room for one float for each
/// row, and the sizes. It is launched exactly when every input has the length that the sizes ask
/// for.
pub proof fn matvec_q4_0_signature(
    weight: usize,
    input: usize,
    out_dim: usize,
    in_dim: usize,
    r: Result<Program, LaunchError>,
)
    requires
        call_ensures(plan_matvec_q4_0, (weight, input, out_dim, in_dim), r),
    ensures
        ({
            let blocks = out_dim * (in_dim / 32);
            let refused = |e: LaunchError| r == Err::<Program, LaunchError>(e);
            &&& r is Ok <==> {
                &&& out_dim * 4 <= usize::MAX
                &&& blocks * 18 <= usize::MAX
                &&& in_dim % 32 == 0
                &&& input == in_dim
                &&& weight == blocks * 18
            }
            &&& r is Err ==> {
                ||| refused(LaunchError::LengthMismatch(Operand::Weight))
                ||| refused(LaunchError::LengthMismatch(Operand::Input))
                ||| refused(LaunchError::Overflow)
                ||| refused(LaunchError::NotDivisible)
            }
            &&& refused(LaunchError::LengthMismatch(Operand::Input)) ==> input != in_dim
            &&& refused(LaunchError::LengthMismatch(Operand::Weight)) ==> {
                &&& input == in_dim
                &&& weight != blocks * 18
            }
            &&& refused(LaunchError::Overflow) ==> !{
                &&& out_dim * 4 <= usize::MAX
                &&& blocks * 18 <= usize::MAX
            }
            &&& refused(LaunchError::NotDivisible) ==> !(in_dim % 32 == 0)
            &&& r matches Ok(p) ==> {
                &&& p.model().passes.len() == 1
                &&& p.model().runs(
                    0,
                    "matvec_q4_0"@,
                    Seq::empty(),
                )
                &&& p.model().binds(
                    0,
                    seq![
                        Operand::Weight,
                        Operand::Input,
                    ],
                    seq![
                        Binding::Input(Operand::Weight),
                        Binding::Input(Operand::Input),
                        Binding::Room((out_dim as nat * 4) as nat),
                        Binding::Words(seq![out_dim as u32]),
                        Binding::Words(seq![in_dim as u32]),
                    ],
                )
                &&& p.model().gives_back(0, seq![(2int, (out_dim) as nat)])
                &&& p.model().passes[0].grid matches GridRule::Groups { groups, group_width }
                    && groups == row(out_dim)
                    && group_width == 32
            }
        }),
{
    let key: KeyModel = simple_key("matvec_q4_0"@);
    assert(constants_read(key) =~= Seq::empty());
}

/// The unpacking of Q4_0 blocks is given the blocks and room for 32 floats for each of them. It is
/// launched exactly when every input has the length that the sizes ask for.
pub proof fn dequantize_q4_0_signature(
    input: usize,
    num_blocks: usize,
    r: Result<Program, LaunchError>,
)
    requires
        call_ensures(plan_dequantize_q4_0, (input, num_blocks), r),
    ensures
        ({
            let n = num_blocks * 32;
            let refused = |e: LaunchError| r == Err::<Program, LaunchError>(e);
            &&& r is Ok <==> {
                &&& n * 4 <= usize::MAX
                &&& input == num_blocks * 18
            }
            &&& r is Err ==> {
                ||| refused(LaunchError::LengthMismatch(Operand::Input))
                ||| refused(LaunchError::Overflow)
            }
            &&& refused(LaunchError::LengthMismatch(Operand::Input)) ==> input != num_blocks * 18
            &&& refused(LaunchError::Overflow) ==> !(n * 4 <= usize::MAX)
            &&& r matches Ok(p) ==> {
                &&& p.model().passes.len() == 1
                &&& p.model().runs(
                    0,
                    "dequantize_q4_0"@,
                    Seq::empty(),
                )
                &&& p.model().binds(
                    0,
                    seq![
                        Operand::Input,
                    ],
                    seq![
                        Binding::Input(Operand::Input),
                        Binding::Room((n * 4) as nat),
                    ],
                )
                &&& p.model().gives_back(0, seq![(1int, (n) as nat)])
                &&& p.model().passes[0].grid matches GridRule::ThreadsUpTo { total, limit }
                    && total == num_blocks
                    && limit == 256
            }
        }),
{
    let key: KeyModel = simple_key("dequantize_q4_0"@);
    assert(constants_read(key) =~= Seq::empty());
}

/// An element-wise sum is given both summands, room for as much output, and the length. It is
/// launched exactly when every input has the length that the sizes ask for.
pub proof fn residual_signature(
    a: usize,
    b: usize,
    r: Result<Program, LaunchError>,
)
    requires
        call_ensures(plan_residual_add, (a, b), r),
    ensures
        ({
            let refused = |e: LaunchError| r == Err::<Program, LaunchError>(e);
            &&& r is Ok <==> {
                &&& a * 4 <= usize::MAX
                &&& a == b
            }
            &&& r is Err ==> {
                ||| refused(LaunchError::LengthMismatch(Operand::B))
                ||| refused(LaunchError::Overflow)
            }
            &&& refused(LaunchError::LengthMismatch(Operand::B)) ==> a != b
            &&& refused(LaunchError::Overflow) ==> !(a * 4 <= usize::MAX)
            &&& r matches Ok(p) ==> {
                &&& p.model().passes.len() == 1
                &&& p.model().runs(
                    0,
                    "residual_add"@,
                    Seq::empty(),
                )
                &&& p.model().binds(
                    0,
                    seq![
                        Operand::A,
                        Operand::B,
                    ],
                    seq![
                        Binding::Input(Operand::A),
                        Binding::Input(Operand::B),
                        Binding::Room((a * 4) as nat),
                        Binding::Words(seq![a as u32]),
                    ],
                )
                &&& p.model().gives_back(0, seq![(2int, (a) as nat)])
                &&& p.model().passes[0].grid matches GridRule::Threads { threads, group }
                    && threads == row(a as usize)
                    && group == row(256)
            }
        }),
{
    let key: KeyModel = simple_key("residual_add"@);
    assert(constants_read(key) =~= Seq::empty());
}

/// A selective scan is given x, A, B and C, the skip factor, the state, room for as much output as
/// input, and the sizes; the output and the new state are read back. It is launched exactly when
/// every input has the length that the sizes ask for.
pub proof fn ssm_signature(
    x: usize,
    a: usize,
    b: usize,
    c: usize,
    state: usize,
    d_param: u32,
    seq_len: usize,
    d_model: usize,
    d_state: usize,
    r: Result<Program, LaunchError>,
)
    requires
        call_ensures(plan_ssm_scan, (x, a, b, c, state, d_param, seq_len, d_model, d_state), r),
    ensures
        ({
            let n = seq_len * d_model;
            let gates = seq_len * d_state;
            let cells = d_model * d_state;
            let refused = |e: LaunchError| r == Err::<Program, LaunchError>(e);
            &&& r is Ok <==> {
                &&& n * 4 <= usize::MAX
                &&& gates * 4 <= usize::MAX
                &&& cells * 4 <= usize::MAX
                &&& x == n
                &&& a == n
                &&& b == gates
                &&& c == gates
                &&& state == cells
            }
            &&& r is Err ==> {
                ||| refused(LaunchError::LengthMismatch(Operand::X))
                ||| refused(LaunchError::LengthMismatch(Operand::A))
                ||| refused(LaunchError::LengthMismatch(Operand::B))
                ||| refused(LaunchError::LengthMismatch(Operand::C))
                ||| refused(LaunchError::LengthMismatch(Operand::State))
                ||| refused(LaunchError::Overflow)
            }
            &&& refused(LaunchError::LengthMismatch(Operand::X)) ==> x != n
            &&& refused(LaunchError::LengthMismatch(Operand::A)) ==> {
                &&& x == n
                &&& a != n
            }
            &&& refused(LaunchError::LengthMismatch(Operand::B)) ==> {
                &&& x == n
                &&& a == n
                &&& b != gates
            }
            &&& refused(LaunchError::LengthMismatch(Operand::C)) ==> {
                &&& x == n
                &&& a == n
                &&& b == gates
                &&& c != gates
            }
            &&& refused(LaunchError::LengthMismatch(Operand::State)) ==> {
                &&& x == n
                &&& a == n
                &&& b == gates
                &&& c == gates
                &&& state != cells
            }
            &&& refused(LaunchError::Overflow) ==> !{
                &&& n * 4 <= usize::MAX
                &&& gates * 4 <= usize::MAX
                &&& cells * 4 <= usize::MAX
            }
            &&& r matches Ok(p) ==> {
                &&& p.model().passes.len() == 1
                &&& p.model().runs(
                    0,
                    "ssm_scan"@,
                    Seq::empty(),
                )
                &&& p.model().binds(
                    0,
                    seq![
                        Operand::X,
                        Operand::A,
                        Operand::B,
                        Operand::C,
                        Operand::State,
                    ],
                    seq![
                        Binding::Input(Operand::X),
                        Binding::Input(Operand::A),
                        Binding::Input(Operand::B),
                        Binding::Input(Operand::C),
                        Binding::Words(seq![d_param]),
                        Binding::Input(Operand::State),
                        Binding::Room((n * 4) as nat),
                        Binding::Words(seq![seq_len as u32]),
                        Binding::Words(seq![d_model as u32]),
                        Binding::Words(seq![d_state as u32]),
                    ],
                )
                &&& p.model().gives_back(0, seq![(6int, (n) as nat), (5int, (cells) as nat)])
                &&& p.model().passes[0].grid matches GridRule::GroupsUpTo { groups, limit }
                    && groups == row(1)
                    && limit == cells
            }
        }),
{
    let key: KeyModel = simple_key("ssm_scan"@);
    assert(constants_read(key) =~= Seq::empty());
}

/// The WKV operator is given r, k, v, w and the state, room for as much output as input, and the
/// sizes; the output and the new state are read back. It is launched exactly when every input has
/// the length that the sizes ask for.
pub proof fn rwkv_signature(
    r_in: usize,
    k: usize,
    v: usize,
    w: usize,
    state: usize,
    seq_len: usize,
    head_dim: usize,
    r: Result<Program, LaunchError>,
)
    requires
        call_ensures(plan_rwkv_wkv, (r_in, k, v, w, state, seq_len, head_dim), r),
    ensures
        ({
            let n = seq_len * head_dim;
            let cells = head_dim * head_dim;
            let refused = |e: LaunchError| r == Err::<Program, LaunchError>(e);
            &&& r is Ok <==> {
                &&& n * 4 <= usize::MAX
                &&& cells * 4 <= usize::MAX
                &&& r_in == n
                &&& k == n
                &&& v == n
                &&& w == n
                &&& state == cells
            }
            &&& r is Err ==> {
                ||| refused(LaunchError::LengthMismatch(Operand::R))
                ||| refused(LaunchError::LengthMismatch(Operand::K))
                ||| refused(LaunchError::LengthMismatch(Operand::V))
                ||| refused(LaunchError::LengthMismatch(Operand::W))
                ||| refused(LaunchError::LengthMismatch(Operand::State))
                ||| refused(LaunchError::Overflow)
            }
            &&& refused(LaunchError::LengthMismatch(Operand::R)) ==> r_in != n
            &&& refused(LaunchError::LengthMismatch(Operand::K)) ==> {
                &&& r_in == n
                &&& k != n
            }
            &&& refused(LaunchError::LengthMismatch(Operand::V)) ==> {
                &&& r_in == n
                &&& k == n
                &&& v != n
            }
            &&& refused(LaunchError::LengthMismatch(Operand::W)) ==> {
                &&& r_in == n
                &&& k == n
                &&& v == n
                &&& w != n
            }
            &&& refused(LaunchError::LengthMismatch(Operand::State)) ==> {
                &&& r_in == n
                &&& k == n
                &&& v == n
                &&& w == n
                &&& state != cells
            }
            &&& refused(LaunchError::Overflow) ==> !{
                &&& n * 4 <= usize::MAX
                &&& cells * 4 <= usize::MAX
            }
            &&& r matches Ok(p) ==> {
                &&& p.model().passes.len() == 1
                &&& p.model().runs(
                    0,
                    "rwkv_wkv"@,
                    seq![
                        (0usize, ConstantType::UInt, head_dim as u32 as nat),
                    ],
                )
                &&& p.model().binds(
                    0,
                    seq![
                        Operand::R,
                        Operand::K,
                        Operand::V,
                        Operand::W,
                        Operand::State,
                    ],
                    seq![
                        Binding::Input(Operand::R),
                        Binding::Input(Operand::K),
                        Binding::Input(Operand::V),
                        Binding::Input(Operand::W),
                        Binding::Input(Operand::State),
                        Binding::Room((n * 4) as nat),
                        Binding::Words(seq![seq_len as u32]),
                        Binding::Words(seq![head_dim as u32]),
                    ],
                )
                &&& p.model().gives_back(0, seq![(5int, (n) as nat), (4int, (cells) as nat)])
                &&& p.model().passes[0].grid matches GridRule::GroupsUpTo { groups, limit }
                    && groups == row(1)
                    && limit == cells
            }
        }),
{
    let key: KeyModel = simple_key("rwkv_wkv"@);
    assert(constants_read(key) =~= Seq::empty());
    constants_are_read(key, 0, head_dim as u32, false);
    assert(constants_read(key.uint(0, head_dim as u32)) =~= seq![
        (0usize, ConstantType::UInt, head_dim as u32 as nat),
    ]);
}

/// A running sum over matrices is given the matrices, room for as many, their number and their
/// side. It is launched exactly when every input has the length that the sizes ask for.
pub proof fn prefix_sum_signature(
    input: usize,
    n_matrices: usize,
    d: usize,
    r: Result<Program, LaunchError>,
)
    requires
        call_ensures(plan_prefix_sum, (input, n_matrices, d), r),
    ensures
        ({
            let cells = d * d;
            let n = n_matrices * cells;
            let refused = |e: LaunchError| r == Err::<Program, LaunchError>(e);
            &&& r is Ok <==> {
                &&& cells * 4 <= usize::MAX
                &&& n * 4 <= usize::MAX
                &&& input == n
                &&& d > 0
            }
            &&& r is Err ==> {
                ||| refused(LaunchError::LengthMismatch(Operand::Input))
                ||| refused(LaunchError::Overflow)
                ||| refused(LaunchError::Empty)
            }
            &&& refused(LaunchError::LengthMismatch(Operand::Input)) ==> input != n
            &&& refused(LaunchError::Overflow) ==> !{
                &&& cells * 4 <= usize::MAX
                &&& n * 4 <= usize::MAX
            }
            &&& refused(LaunchError::Empty) ==> !(d > 0)
            &&& r matches Ok(p) ==> {
                &&& p.model().passes.len() == 1
                &&& p.model().runs(
                    0,
                    "prefix_sum_matrices"@,
                    Seq::empty(),
                )
                &&& p.model().binds(
                    0,
                    seq![
                        Operand::Input,
                    ],
                    seq![
                        Binding::Input(Operand::Input),
                        Binding::Room((n * 4) as nat),
                        Binding::Words(seq![n_matrices as u32, d as u32]),
                    ],
                )
                &&& p.model().gives_back(0, seq![(1int, (n) as nat)])
                &&& p.model().passes[0].grid matches GridRule::Covering { elements }
                    && elements == cells
            }
        }),
{
    let key: KeyModel = simple_key("prefix_sum_matrices"@);
    assert(constants_read(key) =~= Seq::empty());
}

/// Linear attention runs in two passes, and is planned exactly when Q, K and V have the length that
/// the sizes ask for and the chunks divide the sequence. The first pass is given K and V in this
/// order and leaves one matrix for each chunk; the second pass is given Q and the running sums of
/// those matrices in this order and leaves as much output as there are queries.
pub proof fn linear_signature(
    q: usize,
    k: usize,
    v: usize,
    seq_len: usize,
    head_dim: usize,
    chunk_size: usize,
    r: Result<LinearPlan, LaunchError>,
)
    requires
        call_ensures(plan_linear_attention, (q, k, v, seq_len, head_dim, chunk_size), r),
    ensures
        ({
            let n = seq_len * head_dim;
            let cells = head_dim * head_dim;
            let refused = |e: LaunchError| r == Err::<LinearPlan, LaunchError>(e);
            &&& r is Ok <==> {
                &&& n * 4 <= usize::MAX
                &&& cells * 4 <= usize::MAX
                &&& chunk_size * head_dim * 4 <= usize::MAX
                &&& q == n
                &&& k == n
                &&& v == n
                &&& chunk_size > 0
                &&& seq_len % chunk_size == 0
                &&& seq_len > 0 || head_dim == 0
                &&& (seq_len / chunk_size) * cells * 4 <= usize::MAX
            }
            &&& r is Err ==> {
                ||| refused(LaunchError::LengthMismatch(Operand::Q))
                ||| refused(LaunchError::LengthMismatch(Operand::K))
                ||| refused(LaunchError::LengthMismatch(Operand::V))
                ||| refused(LaunchError::Overflow)
                ||| refused(LaunchError::NotDivisible)
                ||| refused(LaunchError::Empty)
            }
            &&& refused(LaunchError::LengthMismatch(Operand::Q)) ==> q != n
            &&& refused(LaunchError::LengthMismatch(Operand::K)) ==> {
                &&& q == n
                &&& k != n
            }
            &&& refused(LaunchError::LengthMismatch(Operand::V)) ==> {
                &&& q == n
                &&& k == n
                &&& v != n
            }
            &&& refused(LaunchError::Overflow) ==> !{
                &&& n * 4 <= usize::MAX
                &&& cells * 4 <= usize::MAX
                &&& chunk_size * head_dim * 4 <= usize::MAX
                &&& (seq_len / chunk_size) * cells * 4 <= usize::MAX
            }
            &&& refused(LaunchError::NotDivisible) ==> !{
                &&& chunk_size > 0
                &&& seq_len % chunk_size == 0
            }
            &&& refused(LaunchError::Empty) ==> !(seq_len > 0 || head_dim == 0)
            &&& r matches Ok(p) ==> {
                let params = seq![
                    seq_len as u32,
                    head_dim as u32,
                    1u32,
                    1u32,
                    16u32,
                    64u32,
                    0x3E00_0000u32,
                    0u32,
                    16u32,
                    0u32,
                    0u32,
                    1u32,
                    0u32,
                    0u32,
                    0u32,
                    0u32,
                ];
                let constants = seq![
                    (0usize, ConstantType::UInt, head_dim as u32 as nat),
                    (4usize, ConstantType::UInt, chunk_size as u32 as nat),
                ];
                let states = p.num_chunks * cells;
                &&& p.num_chunks * chunk_size == seq_len
                &&& p.chunk_state.model().passes.len() == 1
                &&& p.chunk_state.model().runs(0, "chunk_h"@, constants)
                &&& p.chunk_state.model().binds(
                    0,
                    seq![Operand::K, Operand::V],
                    seq![
                        Binding::Input(Operand::K),
                        Binding::Input(Operand::V),
                        Binding::Room((states * 4) as nat),
                        Binding::Words(params),
                    ],
                )
                &&& p.chunk_state.model().gives_back(0, seq![(2int, states as nat)])
                &&& p.chunk_state.model().passes[0].grid == (GridRule::GroupsUpTo {
                    groups: row(p.num_chunks),
                    limit: cells as usize,
                })
                &&& p.chunk_output.model().passes.len() == 1
                &&& p.chunk_output.model().runs(0, "chunk_o"@, constants)
                &&& p.chunk_output.model().binds(
                    0,
                    seq![Operand::Q, Operand::Sums],
                    seq![
                        Binding::Input(Operand::Q),
                        Binding::Input(Operand::Sums),
                        Binding::Room((n * 4) as nat),
                        Binding::Words(params),
                    ],
                )
                &&& p.chunk_output.model().gives_back(0, seq![(2int, n as nat)])
                &&& p.chunk_output.model().passes[0].grid == (GridRule::GroupsUpTo {
                    groups: row(p.num_chunks),
                    limit: (chunk_size * head_dim) as usize,
                })
            }
        }),
{
    two_constants("chunk_h"@, 0, head_dim as u32, 4, chunk_size as u32);
    two_constants("chunk_o"@, 0, head_dim as u32, 4, chunk_size as u32);
    if chunk_size > 0 {
        vstd::arithmetic::div_mod::lemma_fundamental_div_mod(seq_len as int, chunk_size as int);
        assert(chunk_size * (seq_len / chunk_size) == (seq_len / chunk_size) * chunk_size)
            by (nonlinear_arith);
    }
}

/// Two words that are set as constants are read as those words.
proof fn two_constants(name: Seq<char>, i: usize, a: u32, j: usize, b: u32)
    ensures
        constants_read(simple_key(name).uint(i, a).uint(j, b)) == seq![
            (i, ConstantType::UInt, a as nat),
            (j, ConstantType::UInt, b as nat),
        ],
{
    let key: KeyModel = simple_key(name);
    assert(constants_read(key) =~= Seq::empty());
    constants_are_read(key, i, a, false);
    constants_are_read(key.uint(i, a), j, b, false);
    assert(constants_read(key.uint(i, a).uint(j, b)) =~= seq![
        (i, ConstantType::UInt, a as nat),
        (j, ConstantType::UInt, b as nat),
    ]);
}

/// Paged attention runs in two passes over shared buffers. The first is given Q, the interleaved
/// pages and the block table in this order, and leaves for each partition partial outputs, the
/// largest scores and the sums of the weights, each in a buffer of its own; the second is given
/// these three in the same order and leaves as much output as there are queries.
pub proof fn paged_signature(
    q: usize,
    table: usize,
    seq_len: usize,
    head_dim: usize,
    page_size: usize,
    context_len: usize,
    num_partitions: usize,
    scale: u32,
    r: Result<Program, LaunchError>,
)
    requires
        call_ensures(
            plan_paged_attention,
            (q, table, seq_len, head_dim, page_size, context_len, num_partitions, scale),
            r,
        ),
    ensures
        ({
            let n = seq_len * head_dim;
            let rows = (seq_len + 15) / 16 * num_partitions * 16;
            let refused = |e: LaunchError| r == Err::<Program, LaunchError>(e);
            &&& r is Ok <==> {
                &&& n * 4 <= usize::MAX
                &&& rows * 4 <= usize::MAX
                &&& rows * head_dim * 4 <= usize::MAX
                &&& 16 * head_dim * 4 <= usize::MAX
                &&& q == n
            }
            &&& r is Err ==> refused(LaunchError::Overflow) || refused(
                LaunchError::LengthMismatch(Operand::Q),
            )
            &&& refused(LaunchError::LengthMismatch(Operand::Q)) ==> q != n
            &&& refused(LaunchError::Overflow) ==> !{
                &&& n * 4 <= usize::MAX
                &&& rows * 4 <= usize::MAX
                &&& rows * head_dim * 4 <= usize::MAX
                &&& 16 * head_dim * 4 <= usize::MAX
            }
        }),
        r matches Ok(p) ==> {
            let m = p.model();
            let inputs = seq![Operand::Q, Operand::Pages, Operand::BlockTable];
            let n = seq_len * head_dim;
            let blocks = (m.passes[0].grid->Groups_groups).width;
            let rows = blocks * num_partitions * 16;
            let params = Binding::Words(
                seq![
                    seq_len as u32,
                    head_dim as u32,
                    1u32,
                    1u32,
                    16u32,
                    64u32,
                    scale,
                    0u32,
                    page_size as u32,
                    table as u32,
                    context_len as u32,
                    num_partitions as u32,
                    0u32,
                    0u32,
                    0u32,
                    0u32,
                ],
            );
            let constants = seq![
                (0usize, ConstantType::UInt, head_dim as u32 as nat),
                (1usize, ConstantType::UInt, page_size as u32 as nat),
            ];
            &&& m.passes.len() == 2
            &&& m.runs(0, "paged_attention_partition"@, constants)
            &&& m.passes[0].grid matches GridRule::Groups { groups, group_width } && group_width
                == 32 && groups.height == num_partitions && groups.depth == 1
            &&& blocks * 16 >= seq_len
            &&& seq_len > 0 ==> (blocks - 1) * 16 < seq_len
            &&& m.binds(
                0,
                inputs,
                seq![
                    Binding::Input(Operand::Q),
                    Binding::Input(Operand::Pages),
                    Binding::Input(Operand::BlockTable),
                    Binding::Room((rows * head_dim * 4) as nat),
                    Binding::Room((rows * 4) as nat),
                    Binding::Room((rows * 4) as nat),
                    params,
                ],
            )
            &&& m.buffer_at(0, 4) != m.buffer_at(0, 5)
            &&& m.runs(1, "paged_attention_reduce"@, constants)
            &&& m.passes[1].grid == (GridRule::GroupsUpTo {
                groups: row(blocks),
                limit: (16 * head_dim) as usize,
            })
            &&& m.binds(
                1,
                inputs,
                seq![
                    Binding::Room((rows * head_dim * 4) as nat),
                    Binding::Room((rows * 4) as nat),
                    Binding::Room((rows * 4) as nat),
                    Binding::Room((n * 4) as nat),
                    params,
                ],
            )
            &&& m.buffer_at(1, 0) == m.buffer_at(0, 3)
            &&& m.buffer_at(1, 1) == m.buffer_at(0, 4)
            &&& m.buffer_at(1, 2) == m.buffer_at(0, 5)
            &&& m.gives_back(1, seq![(3int, n as nat)])
            &&& m.buffer_at(1, 3) != m.buffer_at(0, 3)
            &&& m.buffer_at(1, 3) != m.buffer_at(0, 4)
            &&& m.buffer_at(1, 3) != m.buffer_at(0, 5)
        },
{
    groups_cover_exactly(seq_len as nat, 16);
    two_constants("paged_attention_partition"@, 0, head_dim as u32, 1, page_size as u32);
    two_constants("paged_attention_reduce"@, 0, head_dim as u32, 1, page_size as u32);
}

} // verus!
