//! What holds of every planned launch.

use super::attention_plans::{
    decode_program, flash_program, gqa_program, rope_apply_program, rope_program, BLOCK_R,
};
use super::dispatch::{groups_cover_exactly, groups_covering, GridRule};
use super::element_plans::{
    dequantize_q4_0_program, embedding_program, ffn_silu_program, matmul_program,
    matvec_q4_0_program, residual_program, rmsnorm_optimized_program, rmsnorm_program,
};
use super::multi_pass_plans::{
    chunk_output_program, chunk_state_program, linear_error, paged_program,
};
use super::recurrent_plans::{prefix_sum_program, rwkv_program, ssm_program};
use vstd::prelude::*;

verus! {

/// A launch of flash attention binds what exists and reads no further than its buffers reach.
pub proof fn flash_is_sound(
    q: nat,
    k: nat,
    v: nat,
    seq_len: usize,
    head_dim: usize,
    num_heads: usize,
    scale: u32,
)
    ensures
        flash_program(
            q,
            k,
            v,
            seq_len,
            head_dim,
            num_heads,
            scale,
        ) matches Ok(program) ==> program.sound(seq![q * 4, k * 4, v * 4]),
{
}

/// A launch of decode attention binds what exists and reads no further than its buffers reach.
pub proof fn decode_is_sound(
    q: nat,
    k_cache: nat,
    v_cache: nat,
    num_heads: usize,
    num_kv_heads: usize,
    head_dim: usize,
    kv_len: usize,
    scale: u32,
)
    ensures
        decode_program(
            q,
            k_cache,
            v_cache,
            num_heads,
            num_kv_heads,
            head_dim,
            kv_len,
            scale,
        ) matches Ok(program) ==> program.sound(seq![q * 4, k_cache * 4, v_cache * 4]),
{
}

/// A launch of rotary position encoding of a sequence binds what exists and reads no further than
/// its buffers reach.
pub proof fn rope_is_sound(
    q: nat,
    k: nat,
    seq_len: usize,
    head_dim: usize,
)
    ensures
        rope_program(
            q,
            k,
            seq_len,
            head_dim,
        ) matches Ok(program) ==> program.sound(seq![q * 4, k * 4]),
{
}

/// A launch of rotary position encoding of one token binds what exists and reads no further than
/// its buffers reach.
pub proof fn rope_apply_is_sound(
    qk: nat,
    num_heads: usize,
    head_dim: usize,
    position: usize,
    theta: u32,
)
    ensures
        rope_apply_program(
            qk,
            num_heads,
            head_dim,
            position,
            theta,
        ) matches Ok(program) ==> program.sound(seq![qk * 4]),
{
}

/// A launch of the expansion of grouped keys binds what exists and reads no further than its
/// buffers reach.
pub proof fn gqa_is_sound(
    k_full: nat,
    seq_len: usize,
    head_dim: usize,
    num_heads: usize,
    num_kv_heads: usize,
    scale: u32,
)
    ensures
        gqa_program(
            k_full,
            seq_len,
            head_dim,
            num_heads,
            num_kv_heads,
            scale,
        ) matches Ok(program) ==> program.sound(seq![k_full * 4]),
{
}

/// A launch of RMSNorm binds what exists and reads no further than its buffers reach.
pub proof fn rmsnorm_is_sound(
    input: nat,
    weight: nat,
    num_tokens: usize,
    hidden_dim: usize,
    eps: u32,
)
    ensures
        rmsnorm_program(
            input,
            weight,
            num_tokens,
            hidden_dim,
            eps,
        ) matches Ok(program) ==> program.sound(seq![input * 4, weight * 4]),
{
}

/// A launch of RMSNorm of one token binds what exists and reads no further than its buffers reach.
pub proof fn rmsnorm_optimized_is_sound(
    weight: nat,
    hidden_dim: usize,
    eps: u32,
)
    ensures
        rmsnorm_optimized_program(
            weight,
            hidden_dim,
            eps,
        ) matches Ok(program) ==> program.sound(seq![weight * 4, weight * 4]),
{
}

/// A launch of the SwiGLU activation binds what exists and reads no further than its buffers reach.
pub proof fn ffn_silu_is_sound(
    gate: nat,
    up: nat,
    num_tokens: usize,
    intermediate_dim: usize,
)
    ensures
        ffn_silu_program(
            gate,
            up,
            num_tokens,
            intermediate_dim,
        ) matches Ok(program) ==> program.sound(seq![gate * 4, up * 4]),
{
}

/// A launch of an embedding lookup binds what exists and reads no further than its buffers reach.
pub proof fn embedding_is_sound(
    table: nat,
    token_ids: nat,
    seq_len: usize,
    hidden_dim: usize,
)
    ensures
        embedding_program(
            token_ids,
            seq_len,
            hidden_dim,
        ) matches Ok(program) ==> program.sound(seq![table * 4, token_ids * 4]),
{
}

/// A launch of a matrix product binds what exists and reads no further than its buffers reach.
pub proof fn matmul_is_sound(
    a: nat,
    b: nat,
    m: usize,
    n: usize,
    k: usize,
)
    ensures
        matmul_program(a, b, m, n, k) matches Ok(program) ==> program.sound(seq![a * 4, b * 4]),
{
}

/// A launch of a product with a Q4_0 matrix binds what exists and reads no further than its
/// buffers reach.
pub proof fn matvec_q4_0_is_sound(
    weight: nat,
    input: nat,
    out_dim: usize,
    in_dim: usize,
)
    ensures
        matvec_q4_0_program(
            weight,
            input,
            out_dim,
            in_dim,
        ) matches Ok(program) ==> program.sound(seq![weight, input * 4]),
{
}

/// A launch of the unpacking of Q4_0 blocks binds what exists and reads no further than its
/// buffers reach.
pub proof fn dequantize_q4_0_is_sound(
    input: nat,
    num_blocks: usize,
)
    ensures
        dequantize_q4_0_program(
            input,
            num_blocks,
        ) matches Ok(program) ==> program.sound(seq![input]),
{
}

/// A launch of an element-wise sum binds what exists and reads no further than its buffers reach.
pub proof fn residual_is_sound(
    a: nat,
    b: nat,
)
    ensures
        residual_program(a, b) matches Ok(program) ==> program.sound(seq![a * 4, b * 4]),
{
}

/// A launch of a selective scan binds what exists and reads no further than its buffers reach.
pub proof fn ssm_is_sound(
    x: nat,
    a: nat,
    b: nat,
    c: nat,
    state: nat,
    d_param: u32,
    seq_len: usize,
    d_model: usize,
    d_state: usize,
)
    ensures
        ssm_program(
            x,
            a,
            b,
            c,
            state,
            d_param,
            seq_len,
            d_model,
            d_state,
        ) matches Ok(program) ==> program.sound(seq![x * 4, a * 4, b * 4, c * 4, state * 4]),
{
}

/// A launch of the WKV operator binds what exists and reads no further than its buffers reach.
pub proof fn rwkv_is_sound(
    r_in: nat,
    k: nat,
    v: nat,
    w: nat,
    state: nat,
    seq_len: usize,
    head_dim: usize,
)
    ensures
        rwkv_program(
            r_in,
            k,
            v,
            w,
            state,
            seq_len,
            head_dim,
        ) matches Ok(program) ==> program.sound(seq![r_in * 4, k * 4, v * 4, w * 4, state * 4]),
{
}

/// A launch of a running sum over matrices binds what exists and reads no further than its buffers
/// reach.
pub proof fn prefix_sum_is_sound(
    input: nat,
    n_matrices: usize,
    d: usize,
)
    ensures
        prefix_sum_program(
            input,
            n_matrices,
            d,
        ) matches Ok(program) ==> program.sound(seq![input * 4]),
{
}

/// A launch of paged attention binds what exists and reads no further than its buffers reach.
pub proof fn paged_is_sound(
    q: nat,
    pages: nat,
    table: nat,
    seq_len: usize,
    head_dim: usize,
    page_size: usize,
    context_len: usize,
    num_partitions: usize,
    scale: u32,
)
    ensures
        paged_program(
            q,
            table,
            seq_len,
            head_dim,
            page_size,
            context_len,
            num_partitions,
            scale,
        ) matches Ok(program) ==> program.sound(seq![q * 4, pages * 4, table * 4]),
{
}

/// Both passes of linear attention bind what exists and read no further than their buffers reach.
pub proof fn linear_is_sound(
    q: nat,
    k: nat,
    v: nat,
    seq_len: usize,
    head_dim: usize,
    chunk_size: usize,
)
    ensures
        linear_error(q, k, v, seq_len, head_dim, chunk_size) is None ==> {
            let sums = (seq_len / chunk_size) * (head_dim * head_dim);
            &&& chunk_state_program(seq_len, head_dim, chunk_size).sound(seq![k * 4, v * 4])
            &&& chunk_output_program(seq_len, head_dim, chunk_size).sound(
                seq![q * 4, (sums * 4) as nat],
            )
        },
{
}

/// Whether `blocks` threadgroups, each working on a block of rows, work on all `rows`, and none of
/// them has nothing to do.
pub open spec fn blocks_cover(blocks: usize, rows: usize) -> bool {
    &&& blocks * BLOCK_R >= rows
    &&& rows > 0 ==> (blocks - 1) * BLOCK_R < rows
}

proof fn row_blocks_cover(rows: usize)
    ensures
        blocks_cover(groups_covering(rows as nat, BLOCK_R as nat) as usize, rows),
{
    groups_cover_exactly(rows as nat, BLOCK_R as nat);
}

/// Flash attention works on every query row of every head.
pub proof fn flash_covers_rows(
    q: nat,
    k: nat,
    v: nat,
    seq_len: usize,
    head_dim: usize,
    num_heads: usize,
    scale: u32,
)
    ensures
        flash_program(
            q,
            k,
            v,
            seq_len,
            head_dim,
            num_heads,
            scale,
        ) matches Ok(program) ==> (program.passes[0].grid matches GridRule::Groups { groups, .. }
            && groups.height == num_heads && blocks_cover(groups.width, seq_len)),
{
    row_blocks_cover(seq_len);
}

/// Paged attention works on every query row in every partition, and combines the partial outputs
/// of every row.
pub proof fn paged_covers_rows(
    q: nat,
    table: nat,
    seq_len: usize,
    head_dim: usize,
    page_size: usize,
    context_len: usize,
    num_partitions: usize,
    scale: u32,
)
    ensures
        paged_program(
            q,
            table,
            seq_len,
            head_dim,
            page_size,
            context_len,
            num_partitions,
            scale,
        ) matches Ok(program) ==> {
            &&& program.passes[0].grid matches GridRule::Groups { groups, .. } && groups.height
                == num_partitions && blocks_cover(groups.width, seq_len)
            &&& program.passes[1].grid matches GridRule::GroupsUpTo { groups, .. } && blocks_cover(
                groups.width,
                seq_len,
            )
        },
{
    row_blocks_cover(seq_len);
}

} // verus!
