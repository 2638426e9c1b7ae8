//! Tensor element types and the sizes of their quantization blocks.

use vstd::arithmetic::div_mod::{lemma_div_is_ordered, lemma_div_multiples_vanish_fancy};
use vstd::prelude::*;

verus! {

/// GGUF tensor data types (quantization formats).
#[derive(Debug, Clone, Copy, PartialEq, Eq, Hash, Structural)]
pub enum GgufType {
    F32,
    F16,
    Q4_0,
    Q4_1,
    Q5_0,
    Q5_1,
    Q8_0,
    Q8_1,
    #[allow(non_camel_case_types)]
    Q2_K,
    #[allow(non_camel_case_types)]
    Q3_K,
    #[allow(non_camel_case_types)]
    Q4_K,
    #[allow(non_camel_case_types)]
    Q5_K,
    #[allow(non_camel_case_types)]
    Q6_K,
    #[allow(non_camel_case_types)]
    Q8_K,
    I8,
    I16,
    I32,
    I64,
    F64,
    BF16,
}

impl GgufType {
    /// The usual file name suffix for models whose matrices are stored as `Q4_K`.
    pub const Q4_K_M: GgufType = GgufType::Q4_K;

    /// What this type is called.
    pub open spec fn text(self) -> Seq<char> {
        match self {
            GgufType::F32 => "F32"@,
            GgufType::F16 => "F16"@,
            GgufType::Q4_0 => "Q4_0"@,
            GgufType::Q4_1 => "Q4_1"@,
            GgufType::Q5_0 => "Q5_0"@,
            GgufType::Q5_1 => "Q5_1"@,
            GgufType::Q8_0 => "Q8_0"@,
            GgufType::Q8_1 => "Q8_1"@,
            GgufType::Q2_K => "Q2_K"@,
            GgufType::Q3_K => "Q3_K"@,
            GgufType::Q4_K => "Q4_K"@,
            GgufType::Q5_K => "Q5_K"@,
            GgufType::Q6_K => "Q6_K"@,
            GgufType::Q8_K => "Q8_K"@,
            GgufType::I8 => "I8"@,
            GgufType::I16 => "I16"@,
            GgufType::I32 => "I32"@,
            GgufType::I64 => "I64"@,
            GgufType::F64 => "F64"@,
            GgufType::BF16 => "BF16"@,
        }
    }

    /// Name of this type.
    pub fn name(self) -> (r: &'static str)
        ensures
            r@ == self.text(),
    {
        match self {
            GgufType::F32 => "F32",
            GgufType::F16 => "F16",
            GgufType::Q4_0 => "Q4_0",
            GgufType::Q4_1 => "Q4_1",
            GgufType::Q5_0 => "Q5_0",
            GgufType::Q5_1 => "Q5_1",
            GgufType::Q8_0 => "Q8_0",
            GgufType::Q8_1 => "Q8_1",
            GgufType::Q2_K => "Q2_K",
            GgufType::Q3_K => "Q3_K",
            GgufType::Q4_K => "Q4_K",
            GgufType::Q5_K => "Q5_K",
            GgufType::Q6_K => "Q6_K",
            GgufType::Q8_K => "Q8_K",
            GgufType::I8 => "I8",
            GgufType::I16 => "I16",
            GgufType::I32 => "I32",
            GgufType::I64 => "I64",
            GgufType::F64 => "F64",
            GgufType::BF16 => "BF16",
        }
    }

    /// The number that stands for this type in a file. 4 and 5 belonged to formats that are no
    /// longer in use.
    pub open spec fn id(self) -> u32 {
        match self {
            GgufType::F32 => 0,
            GgufType::F16 => 1,
            GgufType::Q4_0 => 2,
            GgufType::Q4_1 => 3,
            GgufType::Q5_0 => 6,
            GgufType::Q5_1 => 7,
            GgufType::Q8_0 => 8,
            GgufType::Q8_1 => 9,
            GgufType::Q2_K => 10,
            GgufType::Q3_K => 11,
            GgufType::Q4_K => 12,
            GgufType::Q5_K => 13,
            GgufType::Q6_K => 14,
            GgufType::Q8_K => 15,
            GgufType::I8 => 24,
            GgufType::I16 => 25,
            GgufType::I32 => 26,
            GgufType::I64 => 27,
            GgufType::F64 => 28,
            GgufType::BF16 => 30,
        }
    }

    /// Whether some type has the number `v`.
    pub open spec fn is_id(v: u32) -> bool {
        v <= 3 || 6 <= v <= 15 || 24 <= v <= 28 || v == 30
    }

    /// The type with the number `v`, if there is one.
    pub open spec fn with_id(v: u32) -> Option<GgufType> {
        if Self::is_id(v) {
            Some(choose|t: GgufType| t.id() == v)
        } else {
            None
        }
    }

    /// Elements in one block.
    pub open spec fn elements_per_block(self) -> nat {
        match self {
            GgufType::Q4_0
            | GgufType::Q4_1
            | GgufType::Q5_0
            | GgufType::Q5_1
            | GgufType::Q8_0
            | GgufType::Q8_1 => 32,
            GgufType::Q2_K
            | GgufType::Q3_K
            | GgufType::Q4_K
            | GgufType::Q5_K
            | GgufType::Q6_K
            | GgufType::Q8_K => 256,
            _ => 1,
        }
    }

    /// Bytes that one block takes.
    pub open spec fn block_bytes(self) -> nat {
        match self {
            GgufType::F32 => 4,
            GgufType::F16 => 2,
            GgufType::BF16 => 2,
            GgufType::F64 => 8,
            GgufType::I8 => 1,
            GgufType::I16 => 2,
            GgufType::I32 => 4,
            GgufType::I64 => 8,
            // 2 scale + 16 nibble pairs
            GgufType::Q4_0 => 18,
            // 2 scale + 2 minimum + 16 nibble pairs
            GgufType::Q4_1 => 20,
            // 2 scale + 4 high bits + 16 nibble pairs
            GgufType::Q5_0 => 22,
            // 2 scale + 2 minimum + 4 high bits + 16 nibble pairs
            GgufType::Q5_1 => 24,
            // 2 scale + 32 values
            GgufType::Q8_0 => 34,
            // 2 scale + 2 sum + 32 values
            GgufType::Q8_1 => 36,
            // 64 values + 16 scales + 2 minimum + 2 scale
            GgufType::Q2_K => 84,
            // 64 values + 32 high bits + 12 scales + 2 scale
            GgufType::Q3_K => 110,
            // 128 values + 12 scales + 2 scale + 2 minimum
            GgufType::Q4_K => 144,
            // 128 values + 32 high bits + 12 scales + 2 scale + 2 minimum
            GgufType::Q5_K => 176,
            // 128 low bits + 64 high bits + 16 scales + 2 scale
            GgufType::Q6_K => 210,
            // 256 values + 32 sums + 4 scale
            GgufType::Q8_K => 292,
        }
    }

    /// Bytes that `n_elements` values take: whole blocks, the last one possibly not full.
    pub open spec fn bytes_for(self, n_elements: nat) -> nat {
        ((n_elements + self.elements_per_block() - 1) as nat / self.elements_per_block())
            * self.block_bytes()
    }

    /// Try to create from a raw u32 type id.
    pub fn from_u32(v: u32) -> (r: Option<GgufType>)
        ensures
            r == Self::with_id(v),
            r is Some <==> Self::is_id(v),
            r matches Some(t) ==> t.id() == v,
    {
        let r: Option<GgufType> = match v {
            0 => Some(GgufType::F32),
            1 => Some(GgufType::F16),
            2 => Some(GgufType::Q4_0),
            3 => Some(GgufType::Q4_1),
            6 => Some(GgufType::Q5_0),
            7 => Some(GgufType::Q5_1),
            8 => Some(GgufType::Q8_0),
            9 => Some(GgufType::Q8_1),
            10 => Some(GgufType::Q2_K),
            11 => Some(GgufType::Q3_K),
            12 => Some(GgufType::Q4_K),
            13 => Some(GgufType::Q5_K),
            14 => Some(GgufType::Q6_K),
            15 => Some(GgufType::Q8_K),
            24 => Some(GgufType::I8),
            25 => Some(GgufType::I16),
            26 => Some(GgufType::I32),
            27 => Some(GgufType::I64),
            28 => Some(GgufType::F64),
            30 => Some(GgufType::BF16),
            _ => None,
        };
        proof {
            if let Some(t) = r {
                type_id_round_trip(t);
            }
        }
        r
    }

    /// The number that stands for this type in a file.
    pub fn to_u32(self) -> (r: u32)
        ensures
            r == self.id(),
    {
        match self {
            GgufType::F32 => 0,
            GgufType::F16 => 1,
            GgufType::Q4_0 => 2,
            GgufType::Q4_1 => 3,
            GgufType::Q5_0 => 6,
            GgufType::Q5_1 => 7,
            GgufType::Q8_0 => 8,
            GgufType::Q8_1 => 9,
            GgufType::Q2_K => 10,
            GgufType::Q3_K => 11,
            GgufType::Q4_K => 12,
            GgufType::Q5_K => 13,
            GgufType::Q6_K => 14,
            GgufType::Q8_K => 15,
            GgufType::I8 => 24,
            GgufType::I16 => 25,
            GgufType::I32 => 26,
            GgufType::I64 => 27,
            GgufType::F64 => 28,
            GgufType::BF16 => 30,
        }
    }

    /// Number of elements per quantization block.
    pub fn block_size(&self) -> (r: usize)
        ensures
            r == self.elements_per_block(),
            r > 0,
    {
        match self {
            GgufType::F32 | GgufType::F16 | GgufType::BF16 | GgufType::F64 => 1,
            GgufType::I8 | GgufType::I16 | GgufType::I32 | GgufType::I64 => 1,
            GgufType::Q4_0 | GgufType::Q4_1 => 32,
            GgufType::Q5_0 | GgufType::Q5_1 => 32,
            GgufType::Q8_0 | GgufType::Q8_1 => 32,
            GgufType::Q2_K => 256,
            GgufType::Q3_K => 256,
            GgufType::Q4_K => 256,
            GgufType::Q5_K => 256,
            GgufType::Q6_K => 256,
            GgufType::Q8_K => 256,
        }
    }

    /// Bytes per quantization block.
    pub fn bytes_per_block(&self) -> (r: usize)
        ensures
            r == self.block_bytes(),
            r > 0,
    {
        match self {
            GgufType::F32 => 4,
            GgufType::F16 => 2,
            GgufType::BF16 => 2,
            GgufType::F64 => 8,
            GgufType::I8 => 1,
            GgufType::I16 => 2,
            GgufType::I32 => 4,
            GgufType::I64 => 8,
            GgufType::Q4_0 => 18,
            GgufType::Q4_1 => 20,
            GgufType::Q5_0 => 22,
            GgufType::Q5_1 => 24,
            GgufType::Q8_0 => 34,
            GgufType::Q8_1 => 36,
            GgufType::Q2_K => 84,
            GgufType::Q3_K => 110,
            GgufType::Q4_K => 144,
            GgufType::Q5_K => 176,
            GgufType::Q6_K => 210,
            GgufType::Q8_K => 292,
        }
    }

    /// Calculate the total byte size for `n_elements` values of this type.
    pub fn tensor_byte_size(&self, n_elements: usize) -> (r: usize)
        requires
            self.bytes_for(n_elements as nat) <= usize::MAX,
        ensures
            r == self.bytes_for(n_elements as nat),
    {
        let bs: usize = self.block_size();
        let whole: usize = n_elements / bs;
        assert(n_elements % bs != 0 ==> n_elements / bs < n_elements) by (nonlinear_arith)
            requires
                bs > 0,
        ;
        let n_blocks: usize = if n_elements % bs == 0 {
            whole
        } else {
            whole + 1
        };
        proof {
            assert(n_blocks == (n_elements + bs - 1) as nat / (bs as nat)) by (nonlinear_arith)
                requires
                    bs > 0,
                    n_blocks == (if n_elements % bs == 0 {
                        (n_elements / bs) as int
                    } else {
                        n_elements / bs + 1
                    }),
            ;
        }
        n_blocks * self.bytes_per_block()
    }
}

/// Every type is found again under its own number, and no two types share one.
pub proof fn type_id_round_trip(t: GgufType)
    ensures
        GgufType::is_id(t.id()),
        GgufType::with_id(t.id()) == Some(t),
{
    let other: GgufType = choose|o: GgufType| o.id() == t.id();
    assert(t.id() == t.id());
    assert(other.id() == t.id());
    assert(other == t);
}

/// A number that stands for a type is the number of that type.
pub proof fn type_id_is_faithful(v: u32)
    requires
        GgufType::is_id(v),
    ensures
        GgufType::with_id(v) matches Some(t) && t.id() == v,
{
    let t: GgufType = if v == 0 { GgufType::F32 } else if v == 1 { GgufType::F16 }
        else if v == 2 { GgufType::Q4_0 } else if v == 3 { GgufType::Q4_1 }
        else if v == 6 { GgufType::Q5_0 } else if v == 7 { GgufType::Q5_1 }
        else if v == 8 { GgufType::Q8_0 } else if v == 9 { GgufType::Q8_1 }
        else if v == 10 { GgufType::Q2_K } else if v == 11 { GgufType::Q3_K }
        else if v == 12 { GgufType::Q4_K } else if v == 13 { GgufType::Q5_K }
        else if v == 14 { GgufType::Q6_K } else if v == 15 { GgufType::Q8_K }
        else if v == 24 { GgufType::I8 } else if v == 25 { GgufType::I16 }
        else if v == 26 { GgufType::I32 } else if v == 27 { GgufType::I64 }
        else if v == 28 { GgufType::F64 } else { GgufType::BF16 };
    assert(t.id() == v);
    type_id_round_trip(t);
}

/// More elements never take fewer bytes.
pub proof fn bytes_for_is_monotone(t: GgufType, a: nat, b: nat)
    requires
        a <= b,
    ensures
        t.bytes_for(a) <= t.bytes_for(b),
{
    let bs: nat = t.elements_per_block();
    lemma_div_is_ordered(a + bs - 1, b + bs - 1, bs as int);
    let x: nat = (a + bs - 1) as nat / bs;
    let y: nat = (b + bs - 1) as nat / bs;
    let c: nat = t.block_bytes();
    assert(x * c <= y * c) by (nonlinear_arith)
        requires
            x <= y,
    ;
}

/// Full blocks take exactly the bytes of that many blocks.
pub proof fn bytes_for_full_blocks(t: GgufType, blocks: nat)
    ensures
        t.bytes_for(blocks * t.elements_per_block()) == blocks * t.block_bytes(),
{
    let bs: int = t.elements_per_block() as int;
    lemma_div_multiples_vanish_fancy(blocks as int, bs - 1, bs);
    assert(bs * blocks == blocks * bs) by (nonlinear_arith);
}

} // verus!
