//! Launches that take two passes.

use super::attention_plans::{sized_params, BLOCK_R, SIMD_WIDTH};
use super::dispatch::{ceil_div, groups_covering, row, GridRule, Size3};
use super::pipeline::{simple_key, PsoKey};
use super::program::{
    floats, one_pass, planned, Arg, BufferInit, LaunchError, Operand, Pass, PassModel, Program,
    ProgramModel,
};
use super::types::AttentionParams;
use vstd::prelude::*;

verus! {

/// The two passes of paged attention over a query of length `q` and a block table of length
/// `table`. The first pass attends to one partition of the pages for each block of query rows
/// and leaves partial outputs with their softmax state; the second one combines them.
pub open spec fn paged_program(
    q: nat,
    table: nat,
    seq_len: usize,
    head_dim: usize,
    page_size: usize,
    context_len: usize,
    num_partitions: usize,
    scale: u32,
) -> Result<ProgramModel, LaunchError> {
    let n = seq_len * head_dim;
    let query_blocks = groups_covering(seq_len as nat, BLOCK_R as nat);
    let partial_rows = query_blocks * num_partitions * BLOCK_R;
    let partial = partial_rows * head_dim;
    if n * 4 > usize::MAX || partial_rows * 4 > usize::MAX || partial * 4 > usize::MAX || BLOCK_R
        * head_dim * 4 > usize::MAX {
        Err(LaunchError::Overflow)
    } else if q != n {
        Err(LaunchError::LengthMismatch(Operand::Q))
    } else {
        Ok(
            ProgramModel {
                buffers: seq![
                    BufferInit::Upload(0),
                    BufferInit::Upload(1),
                    BufferInit::Upload(2),
                    BufferInit::Empty((partial * 4) as usize),
                    BufferInit::Empty((partial_rows * 4) as usize),
                    BufferInit::Empty((partial_rows * 4) as usize),
                    BufferInit::Attention(
                        AttentionParams {
                            num_heads: 1,
                            num_kv_heads: 1,
                            scale,
                            page_size: page_size as u32,
                            num_pages: (table as usize) as u32,
                            max_context_len: context_len as u32,
                            num_partitions: num_partitions as u32,
                            ..sized_params(seq_len, head_dim)
                        },
                    ),
                    BufferInit::Empty((n * 4) as usize),
                ],
                passes: seq![
                    PassModel {
                        key: simple_key("paged_attention_partition"@).uint(
                            0,
                            head_dim as u32,
                        ).uint(1, page_size as u32),
                        args: seq![
                            Arg::Buffer(0),
                            Arg::Buffer(1),
                            Arg::Buffer(2),
                            Arg::Buffer(3),
                            Arg::Buffer(4),
                            Arg::Buffer(5),
                            Arg::Buffer(6),
                        ],
                        grid: GridRule::Groups {
                            groups: Size3 {
                                width: query_blocks as usize,
                                height: num_partitions,
                                depth: 1,
                            },
                            group_width: SIMD_WIDTH,
                        },
                    },
                    PassModel {
                        key: simple_key("paged_attention_reduce"@).uint(0, head_dim as u32).uint(
                            1,
                            page_size as u32,
                        ),
                        args: seq![
                            Arg::Buffer(3),
                            Arg::Buffer(4),
                            Arg::Buffer(5),
                            Arg::Buffer(7),
                            Arg::Buffer(6),
                        ],
                        grid: GridRule::GroupsUpTo {
                            groups: row(query_blocks as usize),
                            limit: (BLOCK_R * head_dim) as usize,
                        },
                    },
                ],
                results: seq![(7, n as usize)],
            },
        )
    }
}

/// Plans paged attention. The inputs are the queries, the interleaved pages and the block table.
pub fn plan_paged_attention(
    q_len: usize,
    table_len: usize,
    seq_len: usize,
    head_dim: usize,
    page_size: usize,
    context_len: usize,
    num_partitions: usize,
    scale: u32,
) -> (r: Result<Program, LaunchError>)
    ensures
        planned(
            r,
            paged_program(
                q_len as nat,
                table_len as nat,
                seq_len,
                head_dim,
                page_size,
                context_len,
                num_partitions,
                scale,
            ),
        ),
{
    let query_blocks: usize = ceil_div(seq_len, BLOCK_R);
    let (n, n_bytes) = match floats(seq_len, head_dim) {
        None => {
            return Err(LaunchError::Overflow);
        },
        Some(pair) => pair,
    };
    let (tile, _) = match floats(BLOCK_R, head_dim) {
        None => {
            return Err(LaunchError::Overflow);
        },
        Some(pair) => pair,
    };
    let blocks: usize = match query_blocks.checked_mul(num_partitions) {
        None => {
            assert(query_blocks * num_partitions * BLOCK_R * 4 > usize::MAX);
            return Err(LaunchError::Overflow);
        },
        Some(blocks) => blocks,
    };
    let (partial_rows, rows_bytes) = match floats(blocks, BLOCK_R) {
        None => {
            return Err(LaunchError::Overflow);
        },
        Some(pair) => pair,
    };
    let (_, partial_bytes) = match floats(partial_rows, head_dim) {
        None => {
            return Err(LaunchError::Overflow);
        },
        Some(pair) => pair,
    };
    if q_len != n {
        return Err(LaunchError::LengthMismatch(Operand::Q));
    }
    let params: AttentionParams = AttentionParams::paged(
        seq_len as u32,
        head_dim as u32,
        1,
        page_size as u32,
        table_len as u32,
        context_len as u32,
        num_partitions as u32,
        scale,
    );
    let partition: Pass = Pass {
        key: PsoKey::simple("paged_attention_partition").with_uint(0, head_dim as u32).with_uint(
            1,
            page_size as u32,
        ),
        args: vec![
            Arg::Buffer(0),
            Arg::Buffer(1),
            Arg::Buffer(2),
            Arg::Buffer(3),
            Arg::Buffer(4),
            Arg::Buffer(5),
            Arg::Buffer(6),
        ],
        grid: GridRule::Groups {
            groups: Size3 { width: query_blocks, height: num_partitions, depth: 1 },
            group_width: SIMD_WIDTH,
        },
    };
    let reduce: Pass = Pass {
        key: PsoKey::simple("paged_attention_reduce").with_uint(0, head_dim as u32).with_uint(
            1,
            page_size as u32,
        ),
        args: vec![
            Arg::Buffer(3),
            Arg::Buffer(4),
            Arg::Buffer(5),
            Arg::Buffer(7),
            Arg::Buffer(6),
        ],
        grid: GridRule::GroupsUpTo {
            groups: Size3 { width: query_blocks, height: 1, depth: 1 },
            limit: tile,
        },
    };
    let program: Program = Program {
        buffers: vec![
            BufferInit::Upload(0),
            BufferInit::Upload(1),
            BufferInit::Upload(2),
            BufferInit::Empty(partial_bytes),
            BufferInit::Empty(rows_bytes),
            BufferInit::Empty(rows_bytes),
            BufferInit::Attention(params),
            BufferInit::Empty(n_bytes),
        ],
        passes: vec![partition, reduce],
        results: vec![(7, n)],
    };
    let ghost expected: ProgramModel = paged_program(
        q_len as nat,
        table_len as nat,
        seq_len,
        head_dim,
        page_size,
        context_len,
        num_partitions,
        scale,
    )->Ok_0;
    assert(program.model() =~~= expected);
    Ok(program)
}

/// Why linear attention cannot be launched, if it cannot.
pub open spec fn linear_error(
    q: nat,
    k: nat,
    v: nat,
    seq_len: usize,
    head_dim: usize,
    chunk_size: usize,
) -> Option<LaunchError> {
    let n = seq_len * head_dim;
    let cells = head_dim * head_dim;
    if n * 4 > usize::MAX || cells * 4 > usize::MAX || chunk_size * head_dim * 4 > usize::MAX {
        Some(LaunchError::Overflow)
    } else if q != n {
        Some(LaunchError::LengthMismatch(Operand::Q))
    } else if k != n {
        Some(LaunchError::LengthMismatch(Operand::K))
    } else if v != n {
        Some(LaunchError::LengthMismatch(Operand::V))
    } else if chunk_size == 0 || seq_len % chunk_size != 0 {
        Some(LaunchError::NotDivisible)
    } else if seq_len == 0 && head_dim > 0 {
        Some(LaunchError::Empty)
    } else if (seq_len / chunk_size) * cells * 4 > usize::MAX {
        Some(LaunchError::Overflow)
    } else {
        None
    }
}

/// The first pass of linear attention, on K and V: the state change of each chunk.
pub open spec fn chunk_state_program(
    seq_len: usize,
    head_dim: usize,
    chunk_size: usize,
) -> ProgramModel {
    let cells = head_dim * head_dim;
    let chunks = seq_len / chunk_size;
    one_pass(
        seq![
            BufferInit::Upload(0),
            BufferInit::Upload(1),
            BufferInit::Empty((chunks * cells * 4) as usize),
            BufferInit::Attention(sized_params(seq_len, head_dim)),
        ],
        simple_key("chunk_h"@).uint(0, head_dim as u32).uint(4, chunk_size as u32),
        seq![Arg::Buffer(0), Arg::Buffer(1), Arg::Buffer(2), Arg::Buffer(3)],
        GridRule::GroupsUpTo { groups: row(chunks), limit: cells as usize },
        seq![(2, (chunks * cells) as usize)],
    )
}

/// The second pass of linear attention, on Q and the running sums of the state changes.
pub open spec fn chunk_output_program(
    seq_len: usize,
    head_dim: usize,
    chunk_size: usize,
) -> ProgramModel {
    let n = seq_len * head_dim;
    one_pass(
        seq![
            BufferInit::Upload(0),
            BufferInit::Upload(1),
            BufferInit::Empty((n * 4) as usize),
            BufferInit::Attention(sized_params(seq_len, head_dim)),
        ],
        simple_key("chunk_o"@).uint(0, head_dim as u32).uint(4, chunk_size as u32),
        seq![Arg::Buffer(0), Arg::Buffer(1), Arg::Buffer(2), Arg::Buffer(3)],
        GridRule::GroupsUpTo {
            groups: row(seq_len / chunk_size),
            limit: (chunk_size * head_dim) as usize,
        },
        seq![(2, n as usize)],
    )
}

/// Linear attention: the pass over K and V, the number of matrices to sum up in between, and the
/// pass over Q and the sums.
#[derive(Debug)]
pub struct LinearPlan {
    pub chunk_state: Program,
    pub num_chunks: usize,
    pub chunk_output: Program,
}

/// Plans linear attention over a sequence that is cut into chunks.
pub fn plan_linear_attention(
    q_len: usize,
    k_len: usize,
    v_len: usize,
    seq_len: usize,
    head_dim: usize,
    chunk_size: usize,
) -> (r: Result<LinearPlan, LaunchError>)
    ensures
        match linear_error(
            q_len as nat,
            k_len as nat,
            v_len as nat,
            seq_len,
            head_dim,
            chunk_size,
        ) {
            Some(e) => r == Err::<LinearPlan, LaunchError>(e),
            None => r matches Ok(p) && p.chunk_state.model() == chunk_state_program(
                seq_len,
                head_dim,
                chunk_size,
            ) && p.num_chunks == seq_len / chunk_size && p.chunk_output.model()
                == chunk_output_program(seq_len, head_dim, chunk_size),
        },
{
    let (n, n_bytes) = match floats(seq_len, head_dim) {
        None => {
            return Err(LaunchError::Overflow);
        },
        Some(pair) => pair,
    };
    let (cells, _) = match floats(head_dim, head_dim) {
        None => {
            return Err(LaunchError::Overflow);
        },
        Some(pair) => pair,
    };
    let (tile, _) = match floats(chunk_size, head_dim) {
        None => {
            return Err(LaunchError::Overflow);
        },
        Some(pair) => pair,
    };
    if q_len != n {
        return Err(LaunchError::LengthMismatch(Operand::Q));
    }
    if k_len != n {
        return Err(LaunchError::LengthMismatch(Operand::K));
    }
    if v_len != n {
        return Err(LaunchError::LengthMismatch(Operand::V));
    }
    if chunk_size == 0 || seq_len % chunk_size != 0 {
        return Err(LaunchError::NotDivisible);
    }
    if seq_len == 0 && head_dim > 0 {
        return Err(LaunchError::Empty);
    }
    let num_chunks: usize = seq_len / chunk_size;
    let (states, states_bytes) = match floats(num_chunks, cells) {
        None => {
            return Err(LaunchError::Overflow);
        },
        Some(pair) => pair,
    };
    let params: AttentionParams = AttentionParams {
        seq_len: seq_len as u32,
        head_dim: head_dim as u32,
        ..AttentionParams::default()
    };
    let chunk_state: Program = Program::single(
        vec![
            BufferInit::Upload(0),
            BufferInit::Upload(1),
            BufferInit::Empty(states_bytes),
            BufferInit::Attention(params),
        ],
        PsoKey::simple("chunk_h").with_uint(0, head_dim as u32).with_uint(4, chunk_size as u32),
        vec![Arg::Buffer(0), Arg::Buffer(1), Arg::Buffer(2), Arg::Buffer(3)],
        GridRule::GroupsUpTo {
            groups: Size3 { width: num_chunks, height: 1, depth: 1 },
            limit: cells,
        },
        vec![(2, states)],
    );
    assert(chunk_state.model() =~~= chunk_state_program(seq_len, head_dim, chunk_size));
    let chunk_output: Program = Program::single(
        vec![
            BufferInit::Upload(0),
            BufferInit::Upload(1),
            BufferInit::Empty(n_bytes),
            BufferInit::Attention(params),
        ],
        PsoKey::simple("chunk_o").with_uint(0, head_dim as u32).with_uint(4, chunk_size as u32),
        vec![Arg::Buffer(0), Arg::Buffer(1), Arg::Buffer(2), Arg::Buffer(3)],
        GridRule::GroupsUpTo {
            groups: Size3 { width: num_chunks, height: 1, depth: 1 },
            limit: tile,
        },
        vec![(2, n)],
    );
    assert(chunk_output.model() =~~= chunk_output_program(seq_len, head_dim, chunk_size));
    Ok(LinearPlan { chunk_state, num_chunks, chunk_output })
}

} // verus!
