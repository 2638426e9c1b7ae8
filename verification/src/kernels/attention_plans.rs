//! Launches of the attention kernels.

use super::dispatch::{ceil_div, groups_covering, least, row, smaller, GridRule, Size3};
use super::pipeline::{simple_key, PsoKey};
use super::program::{
    floats, one_pass, planned, Arg, BufferInit, LaunchError, Operand, Program, ProgramModel,
};
use super::types::{default_attention, AttentionParams};
use vstd::prelude::*;

verus! {

/// Rows of queries that one threadgroup works on.
pub const BLOCK_R: usize = 16;

/// Keys that one tile holds.
pub const BLOCK_C: usize = 64;

/// Threads that work in lockstep.
pub const SIMD_WIDTH: usize = 32;

/// The longest context that the decode kernel can hold.
pub const MAX_DECODE_CONTEXT: usize = 2048;

/// The parameters that only say how long the sequence and how wide a head is.
pub open spec fn sized_params(seq_len: usize, head_dim: usize) -> AttentionParams {
    AttentionParams {
        seq_len: seq_len as u32,
        head_dim: head_dim as u32,
        ..default_attention()
    }
}

/// The launch of flash attention over inputs Q, K and V of the given lengths.
pub open spec fn flash_program(
    q: nat,
    k: nat,
    v: nat,
    seq_len: usize,
    head_dim: usize,
    num_heads: usize,
    scale: u32,
) -> Result<ProgramModel, LaunchError> {
    let n = seq_len * head_dim;
    if n * 4 > usize::MAX {
        Err(LaunchError::Overflow)
    } else if q != n {
        Err(LaunchError::LengthMismatch(Operand::Q))
    } else if k != n {
        Err(LaunchError::LengthMismatch(Operand::K))
    } else if v != n {
        Err(LaunchError::LengthMismatch(Operand::V))
    } else {
        Ok(
            one_pass(
                seq![
                    BufferInit::Upload(0),
                    BufferInit::Upload(1),
                    BufferInit::Upload(2),
                    BufferInit::Empty((n * 4) as usize),
                    BufferInit::Attention(
                        AttentionParams {
                            num_heads: num_heads as u32,
                            num_kv_heads: num_heads as u32,
                            scale,
                            ..sized_params(seq_len, head_dim)
                        },
                    ),
                ],
                simple_key("flash_attention"@).uint(0, head_dim as u32).uint(
                    1,
                    BLOCK_R as u32,
                ).uint(2, BLOCK_C as u32).boolean(4, false),
                seq![
                    Arg::Buffer(0),
                    Arg::Buffer(1),
                    Arg::Buffer(2),
                    Arg::Buffer(3),
                    Arg::Buffer(4),
                ],
                GridRule::Groups {
                    groups: Size3 {
                        width: groups_covering(seq_len as nat, BLOCK_R as nat) as usize,
                        height: num_heads,
                        depth: 1,
                    },
                    group_width: SIMD_WIDTH,
                },
                seq![(3, n as usize)],
            ),
        )
    }
}

/// Plans flash attention: O = softmax(Q K^T * scale) V, one threadgroup for each head and each
/// block of query rows.
pub fn plan_flash_attention(
    q_len: usize,
    k_len: usize,
    v_len: usize,
    seq_len: usize,
    head_dim: usize,
    num_heads: usize,
    scale: u32,
) -> (r: Result<Program, LaunchError>)
    ensures
        planned(
            r,
            flash_program(
                q_len as nat,
                k_len as nat,
                v_len as nat,
                seq_len,
                head_dim,
                num_heads,
                scale,
            ),
        ),
{
    let (n, bytes) = match floats(seq_len, head_dim) {
        None => {
            return Err(LaunchError::Overflow);
        },
        Some(pair) => pair,
    };
    if q_len != n {
        return Err(LaunchError::LengthMismatch(Operand::Q));
    }
    if k_len != n {
        return Err(LaunchError::LengthMismatch(Operand::K));
    }
    if v_len != n {
        return Err(LaunchError::LengthMismatch(Operand::V));
    }
    let params: AttentionParams = AttentionParams::flash(
        seq_len as u32,
        head_dim as u32,
        num_heads as u32,
        scale,
    );
    let buffers: Vec<BufferInit> = vec![
        BufferInit::Upload(0),
        BufferInit::Upload(1),
        BufferInit::Upload(2),
        BufferInit::Empty(bytes),
        BufferInit::Attention(params),
    ];
    let key: PsoKey = PsoKey::simple("flash_attention")
        .with_uint(0, head_dim as u32)
        .with_uint(1, BLOCK_R as u32)
        .with_uint(2, BLOCK_C as u32)
        .with_bool(4, false);
    let args: Vec<Arg> = vec![
        Arg::Buffer(0),
        Arg::Buffer(1),
        Arg::Buffer(2),
        Arg::Buffer(3),
        Arg::Buffer(4),
    ];
    let grid: GridRule = GridRule::Groups {
        groups: Size3 { width: ceil_div(seq_len, BLOCK_R), height: num_heads, depth: 1 },
        group_width: SIMD_WIDTH,
    };
    let program: Program = Program::single(buffers, key, args, grid, vec![(3, n)]);
    let ghost expected: ProgramModel = flash_program(
        q_len as nat,
        k_len as nat,
        v_len as nat,
        seq_len,
        head_dim,
        num_heads,
        scale,
    )->Ok_0;
    assert(program.model() =~~= expected);
    Ok(program)
}

/// The launch of decode attention: one query against `kv_len` cached positions.
pub open spec fn decode_program(
    q: nat,
    k_cache: nat,
    v_cache: nat,
    num_heads: usize,
    num_kv_heads: usize,
    head_dim: usize,
    kv_len: usize,
    scale: u32,
) -> Result<ProgramModel, LaunchError> {
    let out = num_heads * head_dim;
    let kv_dim = num_kv_heads * head_dim;
    let cached = kv_len * kv_dim;
    if out * 4 > usize::MAX || kv_dim * 4 > usize::MAX || cached * 4 > usize::MAX {
        Err(LaunchError::Overflow)
    } else if q != out {
        Err(LaunchError::LengthMismatch(Operand::Q))
    } else if k_cache != cached {
        Err(LaunchError::LengthMismatch(Operand::KCache))
    } else if v_cache != cached {
        Err(LaunchError::LengthMismatch(Operand::VCache))
    } else if kv_len > MAX_DECODE_CONTEXT {
        Err(LaunchError::TooLong)
    } else if num_kv_heads == 0 || num_heads % num_kv_heads != 0 {
        Err(LaunchError::NotDivisible)
    } else {
        Ok(
            one_pass(
                seq![
                    BufferInit::Upload(0),
                    BufferInit::Upload(1),
                    BufferInit::Upload(2),
                    BufferInit::Empty((out * 4) as usize),
                ],
                simple_key("decode_attention"@),
                seq![
                    Arg::Buffer(0),
                    Arg::Buffer(1),
                    Arg::Buffer(2),
                    Arg::Buffer(3),
                    Arg::Inline(num_heads as u32),
                    Arg::Inline(num_kv_heads as u32),
                    Arg::Inline(head_dim as u32),
                    Arg::Inline(kv_len as u32),
                    Arg::Inline(scale),
                ],
                GridRule::Groups { groups: row(num_heads), group_width: SIMD_WIDTH },
                seq![(3, out as usize)],
            ),
        )
    }
}

/// Plans decode attention: one threadgroup of one simdgroup for each query head.
pub fn plan_decode_attention(
    q_len: usize,
    k_cache_len: usize,
    v_cache_len: usize,
    num_heads: usize,
    num_kv_heads: usize,
    head_dim: usize,
    kv_len: usize,
    scale: u32,
) -> (r: Result<Program, LaunchError>)
    ensures
        planned(
            r,
            decode_program(
                q_len as nat,
                k_cache_len as nat,
                v_cache_len as nat,
                num_heads,
                num_kv_heads,
                head_dim,
                kv_len,
                scale,
            ),
        ),
{
    let (out, out_bytes) = match floats(num_heads, head_dim) {
        None => {
            return Err(LaunchError::Overflow);
        },
        Some(pair) => pair,
    };
    let (kv_dim, _) = match floats(num_kv_heads, head_dim) {
        None => {
            return Err(LaunchError::Overflow);
        },
        Some(pair) => pair,
    };
    let (cached, _) = match floats(kv_len, kv_dim) {
        None => {
            return Err(LaunchError::Overflow);
        },
        Some(pair) => pair,
    };
    if q_len != out {
        return Err(LaunchError::LengthMismatch(Operand::Q));
    }
    if k_cache_len != cached {
        return Err(LaunchError::LengthMismatch(Operand::KCache));
    }
    if v_cache_len != cached {
        return Err(LaunchError::LengthMismatch(Operand::VCache));
    }
    if kv_len > MAX_DECODE_CONTEXT {
        return Err(LaunchError::TooLong);
    }
    if num_kv_heads == 0 || num_heads % num_kv_heads != 0 {
        return Err(LaunchError::NotDivisible);
    }
    let buffers: Vec<BufferInit> = vec![
        BufferInit::Upload(0),
        BufferInit::Upload(1),
        BufferInit::Upload(2),
        BufferInit::Empty(out_bytes),
    ];
    let key: PsoKey = PsoKey::simple("decode_attention");
    let args: Vec<Arg> = vec![
        Arg::Buffer(0),
        Arg::Buffer(1),
        Arg::Buffer(2),
        Arg::Buffer(3),
        Arg::Inline(num_heads as u32),
        Arg::Inline(num_kv_heads as u32),
        Arg::Inline(head_dim as u32),
        Arg::Inline(kv_len as u32),
        Arg::Inline(scale),
    ];
    let grid: GridRule = GridRule::Groups {
        groups: Size3 { width: num_heads, height: 1, depth: 1 },
        group_width: SIMD_WIDTH,
    };
    let program: Program = Program::single(
        buffers,
        key,
        args,
        grid,
        vec![(3, out)],
    );
    let ghost expected: ProgramModel = decode_program(
        q_len as nat,
        k_cache_len as nat,
        v_cache_len as nat,
        num_heads,
        num_kv_heads,
        head_dim,
        kv_len,
        scale,
    )->Ok_0;
    assert(program.model() =~~= expected);
    Ok(program)
}

/// The launch of rotary position encoding on all tokens of Q and K, in place.
pub open spec fn rope_program(
    q: nat,
    k: nat,
    seq_len: usize,
    head_dim: usize,
) -> Result<ProgramModel, LaunchError> {
    let n = seq_len * head_dim;
    if n * 4 > usize::MAX {
        Err(LaunchError::Overflow)
    } else if q != n {
        Err(LaunchError::LengthMismatch(Operand::Q))
    } else if k != n {
        Err(LaunchError::LengthMismatch(Operand::K))
    } else if head_dim % 2 != 0 {
        Err(LaunchError::NotDivisible)
    } else {
        Ok(
            one_pass(
                seq![
                    BufferInit::Upload(0),
                    BufferInit::Upload(1),
                    BufferInit::Attention(sized_params(seq_len, head_dim)),
                ],
                simple_key("apply_rope"@),
                seq![
                    Arg::Buffer(0),
                    Arg::Buffer(1),
                    Arg::Buffer(2),
                ],
                GridRule::Threads {
                    threads: Size3 { width: seq_len, height: head_dim / 2, depth: 1 },
                    group: Size3 {
                        width: least(seq_len, 16),
                        height: least(head_dim / 2, 16),
                        depth: 1,
                    },
                },
                seq![(0, n as usize), (1, n as usize)],
            ),
        )
    }
}

/// Plans rotary position encoding: one thread for each token and each pair of dimensions.
pub fn plan_rope(
    q_len: usize,
    k_len: usize,
    seq_len: usize,
    head_dim: usize,
) -> (r: Result<Program, LaunchError>)
    ensures
        planned(
            r,
            rope_program(q_len as nat, k_len as nat, seq_len, head_dim),
        ),
{
    let (n, _) = match floats(seq_len, head_dim) {
        None => {
            return Err(LaunchError::Overflow);
        },
        Some(pair) => pair,
    };
    if q_len != n {
        return Err(LaunchError::LengthMismatch(Operand::Q));
    }
    if k_len != n {
        return Err(LaunchError::LengthMismatch(Operand::K));
    }
    if head_dim % 2 != 0 {
        return Err(LaunchError::NotDivisible);
    }
    let params: AttentionParams = AttentionParams {
        seq_len: seq_len as u32,
        head_dim: head_dim as u32,
        ..AttentionParams::default()
    };
    let buffers: Vec<BufferInit> = vec![
        BufferInit::Upload(0),
        BufferInit::Upload(1),
        BufferInit::Attention(params),
    ];
    let key: PsoKey = PsoKey::simple("apply_rope");
    let args: Vec<Arg> = vec![
        Arg::Buffer(0),
        Arg::Buffer(1),
        Arg::Buffer(2),
    ];
    let grid: GridRule = GridRule::Threads {
        threads: Size3 { width: seq_len, height: head_dim / 2, depth: 1 },
        group: Size3 {
            width: smaller(seq_len, 16),
            height: smaller(head_dim / 2, 16),
            depth: 1,
        },
    };
    let program: Program = Program::single(
        buffers,
        key,
        args,
        grid,
        vec![(0, n), (1, n)],
    );
    let ghost expected: ProgramModel = rope_program(
        q_len as nat,
        k_len as nat,
        seq_len,
        head_dim,
    )->Ok_0;
    assert(program.model() =~~= expected);
    Ok(program)
}

/// The launch of rotary position encoding on one token, in place.
pub open spec fn rope_apply_program(
    qk: nat,
    num_heads: usize,
    head_dim: usize,
    position: usize,
    theta: u32,
) -> Result<ProgramModel, LaunchError> {
    let n = num_heads * head_dim;
    if n * 4 > usize::MAX {
        Err(LaunchError::Overflow)
    } else if qk != n {
        Err(LaunchError::LengthMismatch(Operand::Qk))
    } else if head_dim % 2 != 0 {
        Err(LaunchError::NotDivisible)
    } else {
        Ok(
            one_pass(
                seq![
                    BufferInit::Upload(0),
                ],
                simple_key("rope_apply"@),
                seq![
                    Arg::Buffer(0),
                    Arg::Inline(num_heads as u32),
                    Arg::Inline(head_dim as u32),
                    Arg::Inline(position as u32),
                    Arg::Inline(theta),
                ],
                GridRule::Threads { threads: row((n / 2) as usize), group: row(SIMD_WIDTH) },
                seq![(0, n as usize)],
            ),
        )
    }
}

/// Plans rotary position encoding of one token: one thread for each pair of dimensions.
pub fn plan_rope_apply(
    qk_len: usize,
    num_heads: usize,
    head_dim: usize,
    position: usize,
    theta: u32,
) -> (r: Result<Program, LaunchError>)
    ensures
        planned(
            r,
            rope_apply_program(qk_len as nat, num_heads, head_dim, position, theta),
        ),
{
    let (n, _) = match floats(num_heads, head_dim) {
        None => {
            return Err(LaunchError::Overflow);
        },
        Some(pair) => pair,
    };
    if qk_len != n {
        return Err(LaunchError::LengthMismatch(Operand::Qk));
    }
    if head_dim % 2 != 0 {
        return Err(LaunchError::NotDivisible);
    }
    let buffers: Vec<BufferInit> = vec![
        BufferInit::Upload(0),
    ];
    let key: PsoKey = PsoKey::simple("rope_apply");
    let args: Vec<Arg> = vec![
        Arg::Buffer(0),
        Arg::Inline(num_heads as u32),
        Arg::Inline(head_dim as u32),
        Arg::Inline(position as u32),
        Arg::Inline(theta),
    ];
    let grid: GridRule = GridRule::Threads {
        threads: Size3 { width: n / 2, height: 1, depth: 1 },
        group: Size3 { width: SIMD_WIDTH, height: 1, depth: 1 },
    };
    let program: Program = Program::single(
        buffers,
        key,
        args,
        grid,
        vec![(0, n)],
    );
    let ghost expected: ProgramModel = rope_apply_program(
        qk_len as nat,
        num_heads,
        head_dim,
        position,
        theta,
    )->Ok_0;
    assert(program.model() =~~= expected);
    Ok(program)
}

/// The launch that gives every query head the keys of its group.
pub open spec fn gqa_program(
    k_full: nat,
    seq_len: usize,
    head_dim: usize,
    num_heads: usize,
    num_kv_heads: usize,
    scale: u32,
) -> Result<ProgramModel, LaunchError> {
    let head = seq_len * head_dim;
    let given = num_kv_heads * head;
    let expanded = num_heads * head;
    if head * 4 > usize::MAX || given * 4 > usize::MAX || expanded * 4 > usize::MAX {
        Err(LaunchError::Overflow)
    } else if k_full != given {
        Err(LaunchError::LengthMismatch(Operand::KFull))
    } else if num_kv_heads == 0 && num_heads != 0 {
        Err(LaunchError::NotDivisible)
    } else if num_kv_heads != 0 && num_heads % num_kv_heads != 0 {
        Err(LaunchError::NotDivisible)
    } else {
        Ok(
            one_pass(
                seq![
                    BufferInit::Upload(0),
                    BufferInit::Empty((expanded * 4) as usize),
                    BufferInit::Attention(
                        AttentionParams {
                            num_heads: num_heads as u32,
                            num_kv_heads: num_kv_heads as u32,
                            scale,
                            variant: 3,
                            ..sized_params(seq_len, head_dim)
                        },
                    ),
                ],
                simple_key("gqa_remap"@),
                seq![
                    Arg::Buffer(0),
                    Arg::Buffer(1),
                    Arg::Buffer(2),
                ],
                GridRule::Threads {
                    threads: Size3 { width: num_heads, height: seq_len, depth: head_dim },
                    group: Size3 {
                        width: least(num_heads, 4),
                        height: least(seq_len, 4),
                        depth: least(head_dim, 16),
                    },
                },
                seq![(1, expanded as usize)],
            ),
        )
    }
}

/// Plans the expansion of keys from KV heads to query heads: one thread for each element.
pub fn plan_gqa_remap(
    k_full_len: usize,
    seq_len: usize,
    head_dim: usize,
    num_heads: usize,
    num_kv_heads: usize,
    scale: u32,
) -> (r: Result<Program, LaunchError>)
    ensures
        planned(
            r,
            gqa_program(k_full_len as nat, seq_len, head_dim, num_heads, num_kv_heads, scale),
        ),
{
    let (head, _) = match floats(seq_len, head_dim) {
        None => {
            return Err(LaunchError::Overflow);
        },
        Some(pair) => pair,
    };
    let (given, _) = match floats(num_kv_heads, head) {
        None => {
            return Err(LaunchError::Overflow);
        },
        Some(pair) => pair,
    };
    let (expanded, expanded_bytes) = match floats(num_heads, head) {
        None => {
            return Err(LaunchError::Overflow);
        },
        Some(pair) => pair,
    };
    if k_full_len != given {
        return Err(LaunchError::LengthMismatch(Operand::KFull));
    }
    if num_kv_heads == 0 && num_heads != 0 {
        return Err(LaunchError::NotDivisible);
    }
    if num_kv_heads != 0 && num_heads % num_kv_heads != 0 {
        return Err(LaunchError::NotDivisible);
    }
    let params: AttentionParams = AttentionParams::gqa(
        seq_len as u32,
        head_dim as u32,
        num_heads as u32,
        num_kv_heads as u32,
        scale,
    );
    let buffers: Vec<BufferInit> = vec![
        BufferInit::Upload(0),
        BufferInit::Empty(expanded_bytes),
        BufferInit::Attention(params),
    ];
    let key: PsoKey = PsoKey::simple("gqa_remap");
    let args: Vec<Arg> = vec![
        Arg::Buffer(0),
        Arg::Buffer(1),
        Arg::Buffer(2),
    ];
    let grid: GridRule = GridRule::Threads {
        threads: Size3 { width: num_heads, height: seq_len, depth: head_dim },
        group: Size3 {
            width: smaller(num_heads, 4),
            height: smaller(seq_len, 4),
            depth: smaller(head_dim, 16),
        },
    };
    let program: Program = Program::single(
        buffers,
        key,
        args,
        grid,
        vec![(1, expanded)],
    );
    let ghost expected: ProgramModel = gqa_program(
        k_full_len as nat,
        seq_len,
        head_dim,
        num_heads,
        num_kv_heads,
        scale,
    )->Ok_0;
    assert(program.model() =~~= expected);
    Ok(program)
}

} // verus!
