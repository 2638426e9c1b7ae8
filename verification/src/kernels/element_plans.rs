//! Launches of the element-wise and matrix kernels.

use super::attention_plans::SIMD_WIDTH;
use super::dispatch::{row, GridRule, Size3};
use super::pipeline::{simple_key, PsoKey};
use super::program::{
    floats, one_pass, planned, Arg, BufferInit, LaunchError, Operand, Program, ProgramModel,
};
use super::types::{default_layer, LayerParams};
use vstd::prelude::*;

verus! {

/// Q4_0 block size: 32 elements per block.
pub const Q4_0_BLOCK_SIZE: usize = 32;

/// Q4_0 byte size: 2 (scale as float16) + 16 (32 nibbles) = 18 bytes.
pub const Q4_0_BYTES_PER_BLOCK: usize = 18;

/// The launch of RMSNorm on all tokens.
pub open spec fn rmsnorm_program(
    input: nat,
    weight: nat,
    num_tokens: usize,
    hidden_dim: usize,
    eps: u32,
) -> Result<ProgramModel, LaunchError> {
    let n = num_tokens * hidden_dim;
    if n * 4 > usize::MAX {
        Err(LaunchError::Overflow)
    } else if input != n {
        Err(LaunchError::LengthMismatch(Operand::Input))
    } else if weight != hidden_dim {
        Err(LaunchError::LengthMismatch(Operand::Weight))
    } else {
        Ok(
            one_pass(
                seq![
                    BufferInit::Upload(0),
                    BufferInit::Upload(1),
                    BufferInit::Empty((n * 4) as usize),
                    BufferInit::Layer(
                        LayerParams {
                            hidden_dim: hidden_dim as u32,
                            rms_norm_eps: eps,
                            seq_len: num_tokens as u32,
                            ..default_layer()
                        },
                    ),
                ],
                simple_key("rmsnorm"@),
                seq![
                    Arg::Buffer(0),
                    Arg::Buffer(1),
                    Arg::Buffer(2),
                    Arg::Buffer(3),
                ],
                GridRule::ThreadsUpTo { total: n as usize, limit: 256 },
                seq![(2, n as usize)],
            ),
        )
    }
}

/// Plans RMSNorm: one thread for each element.
pub fn plan_rmsnorm(
    input_len: usize,
    weight_len: usize,
    num_tokens: usize,
    hidden_dim: usize,
    eps: u32,
) -> (r: Result<Program, LaunchError>)
    ensures
        planned(
            r,
            rmsnorm_program(input_len as nat, weight_len as nat, num_tokens, hidden_dim, eps),
        ),
{
    let (n, n_bytes) = match floats(num_tokens, hidden_dim) {
        None => {
            return Err(LaunchError::Overflow);
        },
        Some(pair) => pair,
    };
    if input_len != n {
        return Err(LaunchError::LengthMismatch(Operand::Input));
    }
    if weight_len != hidden_dim {
        return Err(LaunchError::LengthMismatch(Operand::Weight));
    }
    let params: LayerParams = LayerParams {
        hidden_dim: hidden_dim as u32,
        rms_norm_eps: eps,
        seq_len: num_tokens as u32,
        ..LayerParams::default()
    };
    let buffers: Vec<BufferInit> = vec![
        BufferInit::Upload(0),
        BufferInit::Upload(1),
        BufferInit::Empty(n_bytes),
        BufferInit::Layer(params),
    ];
    let key: PsoKey = PsoKey::simple("rmsnorm");
    let args: Vec<Arg> = vec![
        Arg::Buffer(0),
        Arg::Buffer(1),
        Arg::Buffer(2),
        Arg::Buffer(3),
    ];
    let grid: GridRule = GridRule::ThreadsUpTo { total: n, limit: 256 };
    let program: Program = Program::single(
        buffers,
        key,
        args,
        grid,
        vec![(2, n)],
    );
    let ghost expected: ProgramModel = rmsnorm_program(
        input_len as nat,
        weight_len as nat,
        num_tokens,
        hidden_dim,
        eps,
    )->Ok_0;
    assert(program.model() =~~= expected);
    Ok(program)
}

/// The launch of RMSNorm on one token by one simdgroup.
pub open spec fn rmsnorm_optimized_program(
    weight: nat,
    hidden_dim: usize,
    eps: u32,
) -> Result<ProgramModel, LaunchError> {
    let n = hidden_dim as nat;
    if n * 4 > usize::MAX {
        Err(LaunchError::Overflow)
    } else if weight != hidden_dim {
        Err(LaunchError::LengthMismatch(Operand::Weight))
    } else {
        Ok(
            one_pass(
                seq![
                    BufferInit::Upload(0),
                    BufferInit::Upload(1),
                    BufferInit::Empty((n * 4) as usize),
                ],
                simple_key("rmsnorm_optimized"@),
                seq![
                    Arg::Buffer(0),
                    Arg::Buffer(1),
                    Arg::Buffer(2),
                    Arg::Inline(hidden_dim as u32),
                    Arg::Inline(eps),
                ],
                GridRule::Groups { groups: row(1), group_width: SIMD_WIDTH },
                seq![(2, n as usize)],
            ),
        )
    }
}

/// Plans RMSNorm of one token: one threadgroup of one simdgroup.
pub fn plan_rmsnorm_optimized(
    weight_len: usize,
    hidden_dim: usize,
    eps: u32,
) -> (r: Result<Program, LaunchError>)
    ensures
        planned(
            r,
            rmsnorm_optimized_program(weight_len as nat, hidden_dim, eps),
        ),
{
    let (n, n_bytes) = match floats(hidden_dim, 1) {
        None => {
            return Err(LaunchError::Overflow);
        },
        Some(pair) => pair,
    };
    if weight_len != hidden_dim {
        return Err(LaunchError::LengthMismatch(Operand::Weight));
    }
    let buffers: Vec<BufferInit> = vec![
        BufferInit::Upload(0),
        BufferInit::Upload(1),
        BufferInit::Empty(n_bytes),
    ];
    let key: PsoKey = PsoKey::simple("rmsnorm_optimized");
    let args: Vec<Arg> = vec![
        Arg::Buffer(0),
        Arg::Buffer(1),
        Arg::Buffer(2),
        Arg::Inline(hidden_dim as u32),
        Arg::Inline(eps),
    ];
    let grid: GridRule = GridRule::Groups {
        groups: Size3 { width: 1, height: 1, depth: 1 },
        group_width: SIMD_WIDTH,
    };
    let program: Program = Program::single(
        buffers,
        key,
        args,
        grid,
        vec![(2, n)],
    );
    let ghost expected: ProgramModel = rmsnorm_optimized_program(
        weight_len as nat,
        hidden_dim,
        eps,
    )->Ok_0;
    assert(program.model() =~~= expected);
    Ok(program)
}

/// The launch of the SwiGLU activation. The kernel's first argument is not used.
pub open spec fn ffn_silu_program(
    gate: nat,
    up: nat,
    num_tokens: usize,
    intermediate_dim: usize,
) -> Result<ProgramModel, LaunchError> {
    let n = num_tokens * intermediate_dim;
    if n * 4 > usize::MAX {
        Err(LaunchError::Overflow)
    } else if gate != n {
        Err(LaunchError::LengthMismatch(Operand::Gate))
    } else if up != n {
        Err(LaunchError::LengthMismatch(Operand::Up))
    } else {
        Ok(
            one_pass(
                seq![
                    BufferInit::Empty(4),
                    BufferInit::Upload(0),
                    BufferInit::Upload(1),
                    BufferInit::Empty((n * 4) as usize),
                    BufferInit::Layer(
                        LayerParams {
                            intermediate_dim: intermediate_dim as u32,
                            seq_len: num_tokens as u32,
                            ..default_layer()
                        },
                    ),
                ],
                simple_key("ffn_silu"@),
                seq![
                    Arg::Buffer(0),
                    Arg::Buffer(1),
                    Arg::Buffer(2),
                    Arg::Buffer(3),
                    Arg::Buffer(4),
                ],
                GridRule::ThreadsUpTo { total: n as usize, limit: 256 },
                seq![(3, n as usize)],
            ),
        )
    }
}

/// Plans the SwiGLU activation silu(gate) * up: one thread for each element.
pub fn plan_ffn_silu(
    gate_len: usize,
    up_len: usize,
    num_tokens: usize,
    intermediate_dim: usize,
) -> (r: Result<Program, LaunchError>)
    ensures
        planned(
            r,
            ffn_silu_program(gate_len as nat, up_len as nat, num_tokens, intermediate_dim),
        ),
{
    let (n, n_bytes) = match floats(num_tokens, intermediate_dim) {
        None => {
            return Err(LaunchError::Overflow);
        },
        Some(pair) => pair,
    };
    if gate_len != n {
        return Err(LaunchError::LengthMismatch(Operand::Gate));
    }
    if up_len != n {
        return Err(LaunchError::LengthMismatch(Operand::Up));
    }
    let params: LayerParams = LayerParams {
        intermediate_dim: intermediate_dim as u32,
        seq_len: num_tokens as u32,
        ..LayerParams::default()
    };
    let buffers: Vec<BufferInit> = vec![
        BufferInit::Empty(4),
        BufferInit::Upload(0),
        BufferInit::Upload(1),
        BufferInit::Empty(n_bytes),
        BufferInit::Layer(params),
    ];
    let key: PsoKey = PsoKey::simple("ffn_silu");
    let args: Vec<Arg> = vec![
        Arg::Buffer(0),
        Arg::Buffer(1),
        Arg::Buffer(2),
        Arg::Buffer(3),
        Arg::Buffer(4),
    ];
    let grid: GridRule = GridRule::ThreadsUpTo { total: n, limit: 256 };
    let program: Program = Program::single(
        buffers,
        key,
        args,
        grid,
        vec![(3, n)],
    );
    let ghost expected: ProgramModel = ffn_silu_program(
        gate_len as nat,
        up_len as nat,
        num_tokens,
        intermediate_dim,
    )->Ok_0;
    assert(program.model() =~~= expected);
    Ok(program)
}

/// The launch of an embedding lookup.
pub open spec fn embedding_program(
    token_ids: nat,
    seq_len: usize,
    hidden_dim: usize,
) -> Result<ProgramModel, LaunchError> {
    let n = seq_len * hidden_dim;
    if n * 4 > usize::MAX {
        Err(LaunchError::Overflow)
    } else if token_ids != seq_len {
        Err(LaunchError::LengthMismatch(Operand::TokenIds))
    } else {
        Ok(
            one_pass(
                seq![
                    BufferInit::Upload(0),
                    BufferInit::Upload(1),
                    BufferInit::Empty((n * 4) as usize),
                    BufferInit::Layer(
                        LayerParams {
                            hidden_dim: hidden_dim as u32,
                            seq_len: seq_len as u32,
                            ..default_layer()
                        },
                    ),
                ],
                simple_key("embedding_lookup"@),
                seq![
                    Arg::Buffer(0),
                    Arg::Buffer(1),
                    Arg::Buffer(2),
                    Arg::Buffer(3),
                ],
                GridRule::ThreadsUpTo { total: n as usize, limit: 256 },
                seq![(2, n as usize)],
            ),
        )
    }
}

/// Plans an embedding lookup: one thread for each element of the output.
pub fn plan_embedding_lookup(
    token_ids_len: usize,
    seq_len: usize,
    hidden_dim: usize,
) -> (r: Result<Program, LaunchError>)
    ensures
        planned(
            r,
            embedding_program(token_ids_len as nat, seq_len, hidden_dim),
        ),
{
    let (n, n_bytes) = match floats(seq_len, hidden_dim) {
        None => {
            return Err(LaunchError::Overflow);
        },
        Some(pair) => pair,
    };
    if token_ids_len != seq_len {
        return Err(LaunchError::LengthMismatch(Operand::TokenIds));
    }
    let params: LayerParams = LayerParams {
        hidden_dim: hidden_dim as u32,
        seq_len: seq_len as u32,
        ..LayerParams::default()
    };
    let buffers: Vec<BufferInit> = vec![
        BufferInit::Upload(0),
        BufferInit::Upload(1),
        BufferInit::Empty(n_bytes),
        BufferInit::Layer(params),
    ];
    let key: PsoKey = PsoKey::simple("embedding_lookup");
    let args: Vec<Arg> = vec![
        Arg::Buffer(0),
        Arg::Buffer(1),
        Arg::Buffer(2),
        Arg::Buffer(3),
    ];
    let grid: GridRule = GridRule::ThreadsUpTo { total: n, limit: 256 };
    let program: Program = Program::single(
        buffers,
        key,
        args,
        grid,
        vec![(2, n)],
    );
    let ghost expected: ProgramModel = embedding_program(
        token_ids_len as nat,
        seq_len,
        hidden_dim,
    )->Ok_0;
    assert(program.model() =~~= expected);
    Ok(program)
}

/// The launch of a matrix product.
pub open spec fn matmul_program(
    a: nat,
    b: nat,
    m: usize,
    n: usize,
    k: usize,
) -> Result<ProgramModel, LaunchError> {
    let left = m * k;
    let right = k * n;
    let total = m * n;
    if left * 4 > usize::MAX || right * 4 > usize::MAX || total * 4 > usize::MAX {
        Err(LaunchError::Overflow)
    } else if a != left {
        Err(LaunchError::LengthMismatch(Operand::A))
    } else if b != right {
        Err(LaunchError::LengthMismatch(Operand::B))
    } else {
        Ok(
            one_pass(
                seq![
                    BufferInit::Upload(0),
                    BufferInit::Upload(1),
                    BufferInit::Empty((total * 4) as usize),
                ],
                simple_key("matmul"@).uint(0, m as u32).uint(1, n as u32).uint(2, k as u32),
                seq![
                    Arg::Buffer(0),
                    Arg::Buffer(1),
                    Arg::Buffer(2),
                ],
                GridRule::ThreadsUpTo { total: total as usize, limit: 256 },
                seq![(2, total as usize)],
            ),
        )
    }
}

/// Plans the matrix product C = A B of an m by k and a k by n matrix: one thread for each element
/// of C.
pub fn plan_matmul(
    a_len: usize,
    b_len: usize,
    m: usize,
    n: usize,
    k: usize,
) -> (r: Result<Program, LaunchError>)
    ensures
        planned(
            r,
            matmul_program(a_len as nat, b_len as nat, m, n, k),
        ),
{
    let (left, _) = match floats(m, k) {
        None => {
            return Err(LaunchError::Overflow);
        },
        Some(pair) => pair,
    };
    let (right, _) = match floats(k, n) {
        None => {
            return Err(LaunchError::Overflow);
        },
        Some(pair) => pair,
    };
    let (total, total_bytes) = match floats(m, n) {
        None => {
            return Err(LaunchError::Overflow);
        },
        Some(pair) => pair,
    };
    if a_len != left {
        return Err(LaunchError::LengthMismatch(Operand::A));
    }
    if b_len != right {
        return Err(LaunchError::LengthMismatch(Operand::B));
    }
    let buffers: Vec<BufferInit> = vec![
        BufferInit::Upload(0),
        BufferInit::Upload(1),
        BufferInit::Empty(total_bytes),
    ];
    let key: PsoKey = PsoKey::simple("matmul")
        .with_uint(0, m as u32)
        .with_uint(1, n as u32)
        .with_uint(2, k as u32);
    let args: Vec<Arg> = vec![
        Arg::Buffer(0),
        Arg::Buffer(1),
        Arg::Buffer(2),
    ];
    let grid: GridRule = GridRule::ThreadsUpTo { total, limit: 256 };
    let program: Program = Program::single(
        buffers,
        key,
        args,
        grid,
        vec![(2, total)],
    );
    let ghost expected: ProgramModel = matmul_program(a_len as nat, b_len as nat, m, n, k)->Ok_0;
    assert(program.model() =~~= expected);
    Ok(program)
}

/// The launch of a product of a Q4_0 matrix with a vector.
pub open spec fn matvec_q4_0_program(
    weight: nat,
    input: nat,
    out_dim: usize,
    in_dim: usize,
) -> Result<ProgramModel, LaunchError> {
    let out = out_dim as nat;
    let blocks = out_dim * (in_dim / Q4_0_BLOCK_SIZE);
    if out * 4 > usize::MAX || blocks * 4 > usize::MAX {
        Err(LaunchError::Overflow)
    } else if in_dim % Q4_0_BLOCK_SIZE != 0 {
        Err(LaunchError::NotDivisible)
    } else if input != in_dim {
        Err(LaunchError::LengthMismatch(Operand::Input))
    } else if blocks * Q4_0_BYTES_PER_BLOCK > usize::MAX {
        Err(LaunchError::Overflow)
    } else if weight != blocks * Q4_0_BYTES_PER_BLOCK {
        Err(LaunchError::LengthMismatch(Operand::Weight))
    } else {
        Ok(
            one_pass(
                seq![
                    BufferInit::Upload(0),
                    BufferInit::Upload(1),
                    BufferInit::Empty((out * 4) as usize),
                ],
                simple_key("matvec_q4_0"@),
                seq![
                    Arg::Buffer(0),
                    Arg::Buffer(1),
                    Arg::Buffer(2),
                    Arg::Inline(out_dim as u32),
                    Arg::Inline(in_dim as u32),
                ],
                GridRule::Groups { groups: row(out_dim), group_width: SIMD_WIDTH },
                seq![(2, out as usize)],
            ),
        )
    }
}

/// Plans the product of a Q4_0 matrix with a vector: one threadgroup of one simdgroup for each row.
pub fn plan_matvec_q4_0(
    weight_len: usize,
    input_len: usize,
    out_dim: usize,
    in_dim: usize,
) -> (r: Result<Program, LaunchError>)
    ensures
        planned(
            r,
            matvec_q4_0_program(weight_len as nat, input_len as nat, out_dim, in_dim),
        ),
{
    let (out, out_bytes) = match floats(out_dim, 1) {
        None => {
            return Err(LaunchError::Overflow);
        },
        Some(pair) => pair,
    };
    let (blocks, _) = match floats(out_dim, in_dim / Q4_0_BLOCK_SIZE) {
        None => {
            return Err(LaunchError::Overflow);
        },
        Some(pair) => pair,
    };
    if in_dim % Q4_0_BLOCK_SIZE != 0 {
        return Err(LaunchError::NotDivisible);
    }
    if input_len != in_dim {
        return Err(LaunchError::LengthMismatch(Operand::Input));
    }
    if blocks > usize::MAX / Q4_0_BYTES_PER_BLOCK {
        return Err(LaunchError::Overflow);
    }
    if weight_len != blocks * Q4_0_BYTES_PER_BLOCK {
        return Err(LaunchError::LengthMismatch(Operand::Weight));
    }
    let buffers: Vec<BufferInit> = vec![
        BufferInit::Upload(0),
        BufferInit::Upload(1),
        BufferInit::Empty(out_bytes),
    ];
    let key: PsoKey = PsoKey::simple("matvec_q4_0");
    let args: Vec<Arg> = vec![
        Arg::Buffer(0),
        Arg::Buffer(1),
        Arg::Buffer(2),
        Arg::Inline(out_dim as u32),
        Arg::Inline(in_dim as u32),
    ];
    let grid: GridRule = GridRule::Groups {
        groups: Size3 { width: out_dim, height: 1, depth: 1 },
        group_width: SIMD_WIDTH,
    };
    let program: Program = Program::single(
        buffers,
        key,
        args,
        grid,
        vec![(2, out)],
    );
    let ghost expected: ProgramModel = matvec_q4_0_program(
        weight_len as nat,
        input_len as nat,
        out_dim,
        in_dim,
    )->Ok_0;
    assert(program.model() =~~= expected);
    Ok(program)
}

/// The launch that unpacks Q4_0 blocks.
pub open spec fn dequantize_q4_0_program(
    input: nat,
    num_blocks: usize,
) -> Result<ProgramModel, LaunchError> {
    let n = num_blocks * Q4_0_BLOCK_SIZE;
    if n * 4 > usize::MAX {
        Err(LaunchError::Overflow)
    } else if input != num_blocks * Q4_0_BYTES_PER_BLOCK {
        Err(LaunchError::LengthMismatch(Operand::Input))
    } else {
        Ok(
            one_pass(
                seq![
                    BufferInit::Upload(0),
                    BufferInit::Empty((n * 4) as usize),
                ],
                simple_key("dequantize_q4_0"@),
                seq![
                    Arg::Buffer(0),
                    Arg::Buffer(1),
                ],
                GridRule::ThreadsUpTo { total: num_blocks as usize, limit: 256 },
                seq![(1, n as usize)],
            ),
        )
    }
}

/// Plans the unpacking of Q4_0 blocks into floats: one thread for each block.
pub fn plan_dequantize_q4_0(
    input_len: usize,
    num_blocks: usize,
) -> (r: Result<Program, LaunchError>)
    ensures
        planned(
            r,
            dequantize_q4_0_program(input_len as nat, num_blocks),
        ),
{
    let (n, n_bytes) = match floats(num_blocks, Q4_0_BLOCK_SIZE) {
        None => {
            return Err(LaunchError::Overflow);
        },
        Some(pair) => pair,
    };
    if input_len != num_blocks * Q4_0_BYTES_PER_BLOCK {
        return Err(LaunchError::LengthMismatch(Operand::Input));
    }
    let buffers: Vec<BufferInit> = vec![
        BufferInit::Upload(0),
        BufferInit::Empty(n_bytes),
    ];
    let key: PsoKey = PsoKey::simple("dequantize_q4_0");
    let args: Vec<Arg> = vec![
        Arg::Buffer(0),
        Arg::Buffer(1),
    ];
    let grid: GridRule = GridRule::ThreadsUpTo { total: num_blocks, limit: 256 };
    let program: Program = Program::single(
        buffers,
        key,
        args,
        grid,
        vec![(1, n)],
    );
    let ghost expected: ProgramModel = dequantize_q4_0_program(input_len as nat, num_blocks)->Ok_0;
    assert(program.model() =~~= expected);
    Ok(program)
}

/// The launch of an element-wise sum.
pub open spec fn residual_program(
    a: nat,
    b: nat,
) -> Result<ProgramModel, LaunchError> {
    let n = a;
    if n * 4 > usize::MAX {
        Err(LaunchError::Overflow)
    } else if a != b {
        Err(LaunchError::LengthMismatch(Operand::B))
    } else {
        Ok(
            one_pass(
                seq![
                    BufferInit::Upload(0),
                    BufferInit::Upload(1),
                    BufferInit::Empty((n * 4) as usize),
                ],
                simple_key("residual_add"@),
                seq![
                    Arg::Buffer(0),
                    Arg::Buffer(1),
                    Arg::Buffer(2),
                    Arg::Inline(a as usize as u32),
                ],
                GridRule::Threads { threads: row(n as usize), group: row(256) },
                seq![(2, n as usize)],
            ),
        )
    }
}

/// Plans the element-wise sum of two vectors: one thread for each element.
pub fn plan_residual_add(
    a_len: usize,
    b_len: usize,
) -> (r: Result<Program, LaunchError>)
    ensures
        planned(
            r,
            residual_program(a_len as nat, b_len as nat),
        ),
{
    let (n, n_bytes) = match floats(a_len, 1) {
        None => {
            return Err(LaunchError::Overflow);
        },
        Some(pair) => pair,
    };
    if a_len != b_len {
        return Err(LaunchError::LengthMismatch(Operand::B));
    }
    let buffers: Vec<BufferInit> = vec![
        BufferInit::Upload(0),
        BufferInit::Upload(1),
        BufferInit::Empty(n_bytes),
    ];
    let key: PsoKey = PsoKey::simple("residual_add");
    let args: Vec<Arg> = vec![
        Arg::Buffer(0),
        Arg::Buffer(1),
        Arg::Buffer(2),
        Arg::Inline(n as u32),
    ];
    let grid: GridRule = GridRule::Threads {
        threads: Size3 { width: n, height: 1, depth: 1 },
        group: Size3 { width: 256, height: 1, depth: 1 },
    };
    let program: Program = Program::single(
        buffers,
        key,
        args,
        grid,
        vec![(2, n)],
    );
    let ghost expected: ProgramModel = residual_program(a_len as nat, b_len as nat)->Ok_0;
    assert(program.model() =~~= expected);
    Ok(program)
}

} // verus!
