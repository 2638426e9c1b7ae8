//! What a kernel is given, by the roles that its arguments have.
//!
//! A program says which buffer stands at which argument index. Here that is followed through to
//! what the kernel finds there: one of the caller's inputs, room for output, or numbers.

use super::pipeline::{ConstantModel, ConstantType, KeyModel};
use super::program::{Arg, BufferInit, Operand, ProgramModel};
use crate::gguf::bytes::{byte_ranges, le_bytes, le_round_trip, le_value};
use vstd::prelude::*;

verus! {

/// What a kernel finds at an argument index.
#[verifier::ext_equal]
pub enum Binding {
    /// This input of the caller.
    Input(Operand),
    /// Room for so many bytes.
    Room(nat),
    /// These 32-bit words.
    Words(Seq<u32>),
    /// Nothing.
    Unbound,
}

/// What stands in a buffer, where the caller gives its inputs in the order `inputs`.
pub open spec fn held(b: BufferInit, inputs: Seq<Operand>) -> Binding {
    match b {
        BufferInit::Upload(n) => if n < inputs.len() {
            Binding::Input(inputs[n as int])
        } else {
            Binding::Unbound
        },
        BufferInit::Attention(p) => Binding::Words(p.words()),
        BufferInit::Layer(p) => Binding::Words(p.words()),
        BufferInit::Word(w) => Binding::Words(seq![w]),
        BufferInit::WordPair(a, b) => Binding::Words(seq![a, b]),
        BufferInit::Empty(bytes) => Binding::Room(bytes as nat),
    }
}

/// The constants of a key that are set by index: the index, the type and the number that the
/// bytes spell.
pub open spec fn constants_read(key: KeyModel) -> Seq<(usize, ConstantType, nat)> {
    key.constants.map_values(
        |c: ConstantModel|
            match c {
                ConstantModel::Index { index, type_tag, bytes } => (
                    index,
                    type_tag,
                    le_value(bytes),
                ),
                ConstantModel::Named { name, type_tag, bytes } => (
                    usize::MAX,
                    type_tag,
                    le_value(bytes),
                ),
            },
    )
}

impl ProgramModel {
    /// The buffer at argument `i` of pass `p`, if there is one.
    pub open spec fn buffer_at(self, p: int, i: int) -> Option<usize> {
        match self.passes[p].args[i] {
            Arg::Buffer(n) => Some(n),
            Arg::Inline(_) => None,
        }
    }

    /// What the kernel of pass `p` finds at argument `i`.
    pub open spec fn binding(self, p: int, i: int, inputs: Seq<Operand>) -> Binding {
        match self.passes[p].args[i] {
            Arg::Buffer(n) => if n < self.buffers.len() {
                held(self.buffers[n as int], inputs)
            } else {
                Binding::Unbound
            },
            Arg::Inline(w) => Binding::Words(seq![w]),
        }
    }

    /// Whether the kernel of pass `p` finds exactly what `table` lists, index by index.
    pub open spec fn binds(self, p: int, inputs: Seq<Operand>, table: Seq<Binding>) -> bool {
        &&& 0 <= p < self.passes.len()
        &&& self.passes[p].args.len() == table.len()
        &&& forall|i: int|
            0 <= i < table.len() ==> self.binding(p, i, inputs) == #[trigger] table[i]
    }

    /// Whether pass `p` runs the kernel with the given name and constants.
    pub open spec fn runs(
        self,
        p: int,
        name: Seq<char>,
        constants: Seq<(usize, ConstantType, nat)>,
    ) -> bool {
        &&& 0 <= p < self.passes.len()
        &&& self.passes[p].key.function_name == name
        &&& constants_read(self.passes[p].key) == constants
    }

    /// Whether what is read back is, in order, so many floats from the buffer at an argument index
    /// of pass `p`.
    pub open spec fn gives_back(self, p: int, results: Seq<(int, nat)>) -> bool {
        &&& self.results.len() == results.len()
        &&& forall|j: int|
            0 <= j < results.len() ==> self.buffer_at(p, (#[trigger] results[j]).0) == Some(
                self.results[j].0,
            ) && self.results[j].1 == results[j].1
    }
}

/// A word that is set as a constant is read as that word, and a truth value as 0 or 1.
pub(crate) proof fn constants_are_read(key: KeyModel, index: usize, value: u32, flag: bool)
    ensures
        constants_read(key.uint(index, value)) == constants_read(key).push(
            (index, ConstantType::UInt, value as nat),
        ),
        constants_read(key.boolean(index, flag)) == constants_read(key).push(
            (index, ConstantType::Bool, if flag { 1nat } else { 0nat }),
        ),
{
    byte_ranges();
    le_round_trip(value as nat, 4);
    let one: Seq<u8> = seq![if flag { 1u8 } else { 0u8 }];
    reveal_with_fuel(le_value, 2);
    assert(le_value(one) == one[0]);
    assert(constants_read(key.uint(index, value)) =~= constants_read(key).push(
        (index, ConstantType::UInt, value as nat),
    ));
    assert(constants_read(key.boolean(index, flag)) =~= constants_read(key).push(
        (index, ConstantType::Bool, if flag { 1nat } else { 0nat }),
    ));
    assert(le_bytes(value as nat, 4).len() == 4);
}

} // verus!
