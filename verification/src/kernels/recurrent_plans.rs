//! Launches of the recurrent kernels.

use super::dispatch::{row, GridRule, Size3};
use super::pipeline::{simple_key, PsoKey};
use super::program::{
    floats, one_pass, planned, Arg, BufferInit, LaunchError, Operand, Program, ProgramModel,
};
use vstd::prelude::*;

verus! {

/// The launch of a selective scan. The state is updated in place.
pub open spec fn ssm_program(
    x: nat,
    a: nat,
    b: nat,
    c: nat,
    state: nat,
    d_param: u32,
    seq_len: usize,
    d_model: usize,
    d_state: usize,
) -> Result<ProgramModel, LaunchError> {
    let n = seq_len * d_model;
    let gates = seq_len * d_state;
    let cells = d_model * d_state;
    if n * 4 > usize::MAX || gates * 4 > usize::MAX || cells * 4 > usize::MAX {
        Err(LaunchError::Overflow)
    } else if x != n {
        Err(LaunchError::LengthMismatch(Operand::X))
    } else if a != n {
        Err(LaunchError::LengthMismatch(Operand::A))
    } else if b != gates {
        Err(LaunchError::LengthMismatch(Operand::B))
    } else if c != gates {
        Err(LaunchError::LengthMismatch(Operand::C))
    } else if state != cells {
        Err(LaunchError::LengthMismatch(Operand::State))
    } else {
        Ok(
            one_pass(
                seq![
                    BufferInit::Upload(0),
                    BufferInit::Upload(1),
                    BufferInit::Upload(2),
                    BufferInit::Upload(3),
                    BufferInit::Word(d_param),
                    BufferInit::Upload(4),
                    BufferInit::Empty((n * 4) as usize),
                    BufferInit::Word(seq_len as u32),
                    BufferInit::Word(d_model as u32),
                    BufferInit::Word(d_state as u32),
                ],
                simple_key("ssm_scan"@),
                seq![
                    Arg::Buffer(0),
                    Arg::Buffer(1),
                    Arg::Buffer(2),
                    Arg::Buffer(3),
                    Arg::Buffer(4),
                    Arg::Buffer(5),
                    Arg::Buffer(6),
                    Arg::Buffer(7),
                    Arg::Buffer(8),
                    Arg::Buffer(9),
                ],
                GridRule::GroupsUpTo { groups: row(1), limit: cells as usize },
                seq![(6, n as usize), (5, cells as usize)],
            ),
        )
    }
}

/// Plans a selective scan: a single threadgroup that works through the tokens one after another.
pub fn plan_ssm_scan(
    x_len: usize,
    a_len: usize,
    b_len: usize,
    c_len: usize,
    state_len: usize,
    d_param: u32,
    seq_len: usize,
    d_model: usize,
    d_state: usize,
) -> (r: Result<Program, LaunchError>)
    ensures
        planned(
            r,
            ssm_program(
                x_len as nat,
                a_len as nat,
                b_len as nat,
                c_len as nat,
                state_len as nat,
                d_param,
                seq_len,
                d_model,
                d_state,
            ),
        ),
{
    let (n, n_bytes) = match floats(seq_len, d_model) {
        None => {
            return Err(LaunchError::Overflow);
        },
        Some(pair) => pair,
    };
    let (gates, _) = match floats(seq_len, d_state) {
        None => {
            return Err(LaunchError::Overflow);
        },
        Some(pair) => pair,
    };
    let (cells, _) = match floats(d_model, d_state) {
        None => {
            return Err(LaunchError::Overflow);
        },
        Some(pair) => pair,
    };
    if x_len != n {
        return Err(LaunchError::LengthMismatch(Operand::X));
    }
    if a_len != n {
        return Err(LaunchError::LengthMismatch(Operand::A));
    }
    if b_len != gates {
        return Err(LaunchError::LengthMismatch(Operand::B));
    }
    if c_len != gates {
        return Err(LaunchError::LengthMismatch(Operand::C));
    }
    if state_len != cells {
        return Err(LaunchError::LengthMismatch(Operand::State));
    }
    let buffers: Vec<BufferInit> = vec![
        BufferInit::Upload(0),
        BufferInit::Upload(1),
        BufferInit::Upload(2),
        BufferInit::Upload(3),
        BufferInit::Word(d_param),
        BufferInit::Upload(4),
        BufferInit::Empty(n_bytes),
        BufferInit::Word(seq_len as u32),
        BufferInit::Word(d_model as u32),
        BufferInit::Word(d_state as u32),
    ];
    let key: PsoKey = PsoKey::simple("ssm_scan");
    let args: Vec<Arg> = vec![
        Arg::Buffer(0),
        Arg::Buffer(1),
        Arg::Buffer(2),
        Arg::Buffer(3),
        Arg::Buffer(4),
        Arg::Buffer(5),
        Arg::Buffer(6),
        Arg::Buffer(7),
        Arg::Buffer(8),
        Arg::Buffer(9),
    ];
    let grid: GridRule = GridRule::GroupsUpTo {
        groups: Size3 { width: 1, height: 1, depth: 1 },
        limit: cells,
    };
    let program: Program = Program::single(
        buffers,
        key,
        args,
        grid,
        vec![(6, n), (5, cells)],
    );
    let ghost expected: ProgramModel = ssm_program(
        x_len as nat,
        a_len as nat,
        b_len as nat,
        c_len as nat,
        state_len as nat,
        d_param,
        seq_len,
        d_model,
        d_state,
    )->Ok_0;
    assert(program.model() =~~= expected);
    Ok(program)
}

/// The launch of the WKV operator. The state is updated in place.
pub open spec fn rwkv_program(
    r_in: nat,
    k: nat,
    v: nat,
    w: nat,
    state: nat,
    seq_len: usize,
    head_dim: usize,
) -> Result<ProgramModel, LaunchError> {
    let n = seq_len * head_dim;
    let cells = head_dim * head_dim;
    if n * 4 > usize::MAX || cells * 4 > usize::MAX {
        Err(LaunchError::Overflow)
    } else if r_in != n {
        Err(LaunchError::LengthMismatch(Operand::R))
    } else if k != n {
        Err(LaunchError::LengthMismatch(Operand::K))
    } else if v != n {
        Err(LaunchError::LengthMismatch(Operand::V))
    } else if w != n {
        Err(LaunchError::LengthMismatch(Operand::W))
    } else if state != cells {
        Err(LaunchError::LengthMismatch(Operand::State))
    } else {
        Ok(
            one_pass(
                seq![
                    BufferInit::Upload(0),
                    BufferInit::Upload(1),
                    BufferInit::Upload(2),
                    BufferInit::Upload(3),
                    BufferInit::Upload(4),
                    BufferInit::Empty((n * 4) as usize),
                    BufferInit::Word(seq_len as u32),
                    BufferInit::Word(head_dim as u32),
                ],
                simple_key("rwkv_wkv"@).uint(0, head_dim as u32),
                seq![
                    Arg::Buffer(0),
                    Arg::Buffer(1),
                    Arg::Buffer(2),
                    Arg::Buffer(3),
                    Arg::Buffer(4),
                    Arg::Buffer(5),
                    Arg::Buffer(6),
                    Arg::Buffer(7),
                ],
                GridRule::GroupsUpTo { groups: row(1), limit: cells as usize },
                seq![(5, n as usize), (4, cells as usize)],
            ),
        )
    }
}

/// Plans the WKV operator: a single threadgroup that works through the tokens one after another.
pub fn plan_rwkv_wkv(
    r_in_len: usize,
    k_len: usize,
    v_len: usize,
    w_len: usize,
    state_len: usize,
    seq_len: usize,
    head_dim: usize,
) -> (r: Result<Program, LaunchError>)
    ensures
        planned(
            r,
            rwkv_program(
                r_in_len as nat,
                k_len as nat,
                v_len as nat,
                w_len as nat,
                state_len as nat,
                seq_len,
                head_dim,
            ),
        ),
{
    let (n, n_bytes) = match floats(seq_len, head_dim) {
        None => {
            return Err(LaunchError::Overflow);
        },
        Some(pair) => pair,
    };
    let (cells, _) = match floats(head_dim, head_dim) {
        None => {
            return Err(LaunchError::Overflow);
        },
        Some(pair) => pair,
    };
    if r_in_len != n {
        return Err(LaunchError::LengthMismatch(Operand::R));
    }
    if k_len != n {
        return Err(LaunchError::LengthMismatch(Operand::K));
    }
    if v_len != n {
        return Err(LaunchError::LengthMismatch(Operand::V));
    }
    if w_len != n {
        return Err(LaunchError::LengthMismatch(Operand::W));
    }
    if state_len != cells {
        return Err(LaunchError::LengthMismatch(Operand::State));
    }
    let buffers: Vec<BufferInit> = vec![
        BufferInit::Upload(0),
        BufferInit::Upload(1),
        BufferInit::Upload(2),
        BufferInit::Upload(3),
        BufferInit::Upload(4),
        BufferInit::Empty(n_bytes),
        BufferInit::Word(seq_len as u32),
        BufferInit::Word(head_dim as u32),
    ];
    let key: PsoKey = PsoKey::simple("rwkv_wkv").with_uint(0, head_dim as u32);
    let args: Vec<Arg> = vec![
        Arg::Buffer(0),
        Arg::Buffer(1),
        Arg::Buffer(2),
        Arg::Buffer(3),
        Arg::Buffer(4),
        Arg::Buffer(5),
        Arg::Buffer(6),
        Arg::Buffer(7),
    ];
    let grid: GridRule = GridRule::GroupsUpTo {
        groups: Size3 { width: 1, height: 1, depth: 1 },
        limit: cells,
    };
    let program: Program = Program::single(
        buffers,
        key,
        args,
        grid,
        vec![(5, n), (4, cells)],
    );
    let ghost expected: ProgramModel = rwkv_program(
        r_in_len as nat,
        k_len as nat,
        v_len as nat,
        w_len as nat,
        state_len as nat,
        seq_len,
        head_dim,
    )->Ok_0;
    assert(program.model() =~~= expected);
    Ok(program)
}

/// The launch of a running sum over matrices.
pub open spec fn prefix_sum_program(
    input: nat,
    n_matrices: usize,
    d: usize,
) -> Result<ProgramModel, LaunchError> {
    let cells = d * d;
    let n = n_matrices * cells;
    if cells * 4 > usize::MAX || n * 4 > usize::MAX {
        Err(LaunchError::Overflow)
    } else if input != n {
        Err(LaunchError::LengthMismatch(Operand::Input))
    } else if d == 0 {
        Err(LaunchError::Empty)
    } else {
        Ok(
            one_pass(
                seq![
                    BufferInit::Upload(0),
                    BufferInit::Empty((n * 4) as usize),
                    BufferInit::WordPair(n_matrices as u32, d as u32),
                ],
                simple_key("prefix_sum_matrices"@),
                seq![
                    Arg::Buffer(0),
                    Arg::Buffer(1),
                    Arg::Buffer(2),
                ],
                GridRule::Covering { elements: cells as usize },
                seq![(1, n as usize)],
            ),
        )
    }
}

/// Plans a running sum over matrices: one thread for each element of a matrix.
pub fn plan_prefix_sum(
    input_len: usize,
    n_matrices: usize,
    d: usize,
) -> (r: Result<Program, LaunchError>)
    ensures
        planned(
            r,
            prefix_sum_program(input_len as nat, n_matrices, d),
        ),
{
    let (cells, _) = match floats(d, d) {
        None => {
            return Err(LaunchError::Overflow);
        },
        Some(pair) => pair,
    };
    let (n, n_bytes) = match floats(n_matrices, cells) {
        None => {
            return Err(LaunchError::Overflow);
        },
        Some(pair) => pair,
    };
    if input_len != n {
        return Err(LaunchError::LengthMismatch(Operand::Input));
    }
    if d == 0 {
        return Err(LaunchError::Empty);
    }
    let buffers: Vec<BufferInit> = vec![
        BufferInit::Upload(0),
        BufferInit::Empty(n_bytes),
        BufferInit::WordPair(n_matrices as u32, d as u32),
    ];
    let key: PsoKey = PsoKey::simple("prefix_sum_matrices");
    let args: Vec<Arg> = vec![
        Arg::Buffer(0),
        Arg::Buffer(1),
        Arg::Buffer(2),
    ];
    let grid: GridRule = GridRule::Covering { elements: cells };
    let program: Program = Program::single(
        buffers,
        key,
        args,
        grid,
        vec![(1, n)],
    );
    let ghost expected: ProgramModel = prefix_sum_program(input_len as nat, n_matrices, d)->Ok_0;
    assert(program.model() =~~= expected);
    Ok(program)
}

} // verus!
