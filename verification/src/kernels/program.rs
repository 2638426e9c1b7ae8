//! What a kernel launch consists of: buffers, passes and results.

use super::dispatch::GridRule;
use super::pipeline::{KeyModel, PsoKey};
use super::types::{AttentionParams, LayerParams};
use vstd::prelude::*;

verus! {

/// What a new buffer holds.
#[derive(Debug, Clone, Copy, PartialEq, Eq, Structural)]
pub enum BufferInit {
    /// The caller's input with this number.
    Upload(usize),
    /// The words of attention parameters.
    Attention(AttentionParams),
    /// The words of layer parameters.
    Layer(LayerParams),
    /// One word.
    Word(u32),
    /// Two words.
    WordPair(u32, u32),
    /// Nothing yet; so many bytes.
    Empty(usize),
}

/// What a kernel finds at one of its argument indices.
#[derive(Debug, Clone, Copy, PartialEq, Eq, Structural)]
pub enum Arg {
    /// The buffer with this number.
    Buffer(usize),
    /// A word that is passed along with the launch.
    Inline(u32),
}

/// One kernel launch. Argument `i` is bound at index `i`.
#[derive(Debug)]
pub struct Pass {
    pub key: PsoKey,
    pub args: Vec<Arg>,
    pub grid: GridRule,
}

/// Buffers, the launches that work on them one after another, and what is read back: the buffer
/// and the number of 32-bit floats at its start.
#[derive(Debug)]
pub struct Program {
    pub buffers: Vec<BufferInit>,
    pub passes: Vec<Pass>,
    pub results: Vec<(usize, usize)>,
}

/// What a pass says.
#[verifier::ext_equal]
pub struct PassModel {
    pub key: KeyModel,
    pub args: Seq<Arg>,
    pub grid: GridRule,
}

/// What a program says.
#[verifier::ext_equal]
pub struct ProgramModel {
    pub buffers: Seq<BufferInit>,
    pub passes: Seq<PassModel>,
    pub results: Seq<(usize, usize)>,
}

/// An input of a kernel.
#[derive(Debug, Clone, Copy, PartialEq, Eq, Structural)]
pub enum Operand {
    Q,
    K,
    V,
    R,
    W,
    X,
    A,
    B,
    C,
    State,
    Input,
    Weight,
    Gate,
    Up,
    TokenIds,
    Qk,
    KCache,
    VCache,
    KFull,
    Pages,
    BlockTable,
    Sums,
}

/// Why a kernel cannot be launched.
#[derive(Debug, Clone, Copy, PartialEq, Eq, Structural)]
pub enum LaunchError {
    /// An input does not have the length that the dimensions ask for.
    LengthMismatch(Operand),
    /// A dimension is not a multiple of the one that divides it.
    NotDivisible,
    /// The context is longer than the kernel can hold.
    TooLong,
    /// There is nothing to work on.
    Empty,
    /// A buffer would be larger than memory can be.
    Overflow,
}

impl Pass {
    /// What this pass says.
    pub open spec fn model(self) -> PassModel {
        PassModel { key: self.key.model(), args: self.args@, grid: self.grid }
    }
}

/// Bytes in a buffer, where `inputs` are the sizes of the caller's inputs in bytes.
pub open spec fn buffer_bytes(b: BufferInit, inputs: Seq<nat>) -> nat {
    match b {
        BufferInit::Upload(i) => inputs[i as int],
        BufferInit::Attention(_) => 64,
        BufferInit::Layer(_) => 64,
        BufferInit::Word(_) => 4,
        BufferInit::WordPair(_, _) => 8,
        BufferInit::Empty(n) => n as nat,
    }
}

impl ProgramModel {
    /// Every input, argument and result exists, and no result is longer than its buffer.
    pub open spec fn sound(self, inputs: Seq<nat>) -> bool {
        &&& forall|i: int|
            0 <= i < self.buffers.len() ==> ((#[trigger] self.buffers[i])
                matches BufferInit::Upload(n) ==> n < inputs.len())
        &&& forall|p: int, i: int|
            0 <= p < self.passes.len() && 0 <= i < self.passes[p].args.len() ==> ((
            #[trigger] self.passes[p].args[i]) matches Arg::Buffer(n) ==> n < self.buffers.len())
        &&& forall|i: int|
            0 <= i < self.results.len() ==> (#[trigger] self.results[i]).0 < self.buffers.len()
                && self.results[i].1 * 4 <= buffer_bytes(
                self.buffers[self.results[i].0 as int],
                inputs,
            )
    }
}

impl Program {
    /// What this program says.
    pub open spec fn model(self) -> ProgramModel {
        ProgramModel {
            buffers: self.buffers@,
            passes: self.passes@.map_values(|p: Pass| p.model()),
            results: self.results@,
        }
    }

    /// A program of one pass.
    pub fn single(
        buffers: Vec<BufferInit>,
        key: PsoKey,
        args: Vec<Arg>,
        grid: GridRule,
        results: Vec<(usize, usize)>,
    ) -> (r: Program)
        ensures
            r.model() == one_pass(buffers@, key.model(), args@, grid, results@),
    {
        let r: Program = Program { buffers, passes: vec![Pass { key, args, grid }], results };
        assert(r.model().passes =~= seq![PassModel { key: key.model(), args: args@, grid }]);
        r
    }
}

/// A program of one pass.
pub open spec fn one_pass(
    buffers: Seq<BufferInit>,
    key: KeyModel,
    args: Seq<Arg>,
    grid: GridRule,
    results: Seq<(usize, usize)>,
) -> ProgramModel {
    ProgramModel { buffers, passes: seq![PassModel { key, args, grid }], results }
}

/// Whether a plan came out as expected.
pub open spec fn planned(
    r: Result<Program, LaunchError>,
    expected: Result<ProgramModel, LaunchError>,
) -> bool {
    match expected {
        Ok(m) => r matches Ok(p) && p.model() == m,
        Err(e) => r == Err::<Program, LaunchError>(e),
    }
}

/// The number of elements of a matrix of 32-bit floats and its size in bytes, if that can be.
pub(crate) fn floats(rows: usize, columns: usize) -> (r: Option<(usize, usize)>)
    ensures
        match r {
            Some((n, bytes)) => n == rows * columns && bytes == rows * columns * 4,
            None => rows * columns * 4 > usize::MAX,
        },
{
    match rows.checked_mul(columns) {
        None => None,
        Some(n) => match n.checked_mul(4) {
            None => None,
            Some(bytes) => Some((n, bytes)),
        },
    }
}

} // verus!
