//! Layer scheduling for hybrid models.
//!
//! Determines which layers use linear attention vs softmax attention
//! in architectures like Jamba, Zamba, and RWKV-7.

use vstd::prelude::*;

verus! {

/// Layer type in a hybrid model.
#[derive(Debug, Clone, Copy, PartialEq, Eq, Structural)]
pub enum LayerType {
    Linear,
    Attention,
}

/// Schedule determining which layers use Linear vs Attention.
#[derive(Debug)]
pub struct LayerSchedule {
    /// Layer types in order. Length = total_layers.
    pub types: Vec<LayerType>,
}

/// The type of layer `i` in a schedule with `ratio` linear layers in front of each attention
/// layer. With a ratio of zero every layer is an attention layer.
pub open spec fn periodic_type(ratio: nat, i: int) -> LayerType {
    if (i + 1) % (ratio + 1) as int == 0 {
        LayerType::Attention
    } else {
        LayerType::Linear
    }
}

/// How many layers of type `t` there are.
pub open spec fn count_of(types: Seq<LayerType>, t: LayerType) -> nat
    decreases types.len(),
{
    if types.len() == 0 {
        0
    } else {
        count_of(types.drop_last(), t) + if types.last() == t {
            1nat
        } else {
            0
        }
    }
}

impl Clone for LayerSchedule {
    fn clone(&self) -> (r: LayerSchedule)
        ensures
            r.types@ == self.types@,
    {
        let types: Vec<LayerType> = self.types.clone();
        assert(types@ =~= self.types@);
        LayerSchedule { types }
    }
}

impl LayerSchedule {
    /// Create a periodic schedule: every (ratio+1)-th layer is Attention,
    /// the rest are Linear. E.g., ratio=7 means layers 0-6 are Linear,
    /// layer 7 is Attention, layers 8-14 are Linear, layer 15 is Attention, etc.
    ///
    /// Special case: ratio=0 produces pure transformer (all attention).
    pub fn periodic(total_layers: usize, ratio: usize) -> (r: LayerSchedule)
        requires
            total_layers > 0 ==> ratio < usize::MAX,
        ensures
            r.types@ == Seq::new(total_layers as nat, |i: int| periodic_type(ratio as nat, i)),
    {
        let mut types: Vec<LayerType> = Vec::new();
        let mut i: usize = 0;
        while i < total_layers
            invariant
                i <= total_layers,
                total_layers > 0 ==> ratio < usize::MAX,
                types@ == Seq::new(i as nat, |k: int| periodic_type(ratio as nat, k)),
            decreases total_layers - i,
        {
            if ratio == 0 {
                types.push(LayerType::Attention);
            } else if (i + 1) % (ratio + 1) == 0 {
                types.push(LayerType::Attention);
            } else {
                types.push(LayerType::Linear);
            }
            assert(types@ =~= Seq::new((i + 1) as nat, |k: int| periodic_type(ratio as nat, k)));
            i = i + 1;
        }
        LayerSchedule { types }
    }

    /// Create from explicit list (for architectures with irregular patterns).
    pub fn explicit(types: Vec<LayerType>) -> (r: LayerSchedule)
        ensures
            r.types@ == types@,
    {
        LayerSchedule { types }
    }

    /// Pure transformer (all attention layers).
    pub fn pure_transformer(total_layers: usize) -> (r: LayerSchedule)
        ensures
            r.types@ == Seq::new(total_layers as nat, |i: int| LayerType::Attention),
    {
        let r: LayerSchedule = Self::periodic(total_layers, 0);
        assert(r.types@ =~= Seq::new(total_layers as nat, |i: int| LayerType::Attention));
        r
    }

    /// Pure linear (all linear layers).
    pub fn pure_linear(total_layers: usize) -> (r: LayerSchedule)
        ensures
            r.types@ == Seq::new(total_layers as nat, |i: int| LayerType::Linear),
    {
        let types: Vec<LayerType> = vec![LayerType::Linear; total_layers];
        assert(types@ =~= Seq::new(total_layers as nat, |i: int| LayerType::Linear));
        LayerSchedule { types }
    }

    /// Total number of layers.
    pub fn total_layers(&self) -> (r: usize)
        ensures
            r == self.types@.len(),
    {
        self.types.len()
    }

    fn count(&self, t: LayerType) -> (r: usize)
        ensures
            r == count_of(self.types@, t),
    {
        let mut n: usize = 0;
        let mut i: usize = 0;
        while i < self.types.len()
            invariant
                i <= self.types.len(),
                n <= i,
                n == count_of(self.types@.take(i as int), t),
            decreases self.types.len() - i,
        {
            assert(self.types@.take(i + 1).drop_last() =~= self.types@.take(i as int));
            if self.types[i] == t {
                n = n + 1;
            }
            i = i + 1;
        }
        assert(self.types@.take(i as int) =~= self.types@);
        n
    }

    /// Count of linear layers.
    pub fn linear_count(&self) -> (r: usize)
        ensures
            r == count_of(self.types@, LayerType::Linear),
    {
        self.count(LayerType::Linear)
    }

    /// Count of attention layers.
    pub fn attention_count(&self) -> (r: usize)
        ensures
            r == count_of(self.types@, LayerType::Attention),
    {
        self.count(LayerType::Attention)
    }

    /// Get the layer type at a given index.
    pub fn layer_type(&self, index: usize) -> (r: Option<LayerType>)
        ensures
            r == (if index < self.types@.len() {
                Some(self.types@[index as int])
            } else {
                None
            }),
    {
        if index < self.types.len() {
            Some(self.types[index])
        } else {
            None
        }
    }
}

/// Every layer is either linear or attention.
pub proof fn counts_add_up(types: Seq<LayerType>)
    ensures
        count_of(types, LayerType::Linear) + count_of(types, LayerType::Attention) == types.len(),
    decreases types.len(),
{
    if types.len() > 0 {
        counts_add_up(types.drop_last());
    }
}

/// A periodic schedule has one attention layer for each full period.
pub proof fn periodic_attention_count(total_layers: nat, ratio: nat)
    ensures
        count_of(
            Seq::new(total_layers, |i: int| periodic_type(ratio, i)),
            LayerType::Attention,
        ) == total_layers / (ratio + 1),
    decreases total_layers,
{
    let types: Seq<LayerType> = Seq::new(total_layers, |i: int| periodic_type(ratio, i));
    let period: int = ratio as int + 1;
    if total_layers > 0 {
        let n: int = total_layers as int;
        periodic_attention_count((total_layers - 1) as nat, ratio);
        assert(types.drop_last() =~= Seq::new(
            (total_layers - 1) as nat,
            |i: int| periodic_type(ratio, i),
        ));
        assert(n / period == (n - 1) / period + if n % period == 0 {
            1int
        } else {
            0
        }) by (nonlinear_arith)
            requires
                period > 0,
                n > 0,
        ;
    } else {
        assert(0int / period == 0) by (nonlinear_arith)
            requires
                period > 0,
        ;
    }
}

/// The attention layers of a periodic schedule stand at the end of each period.
pub proof fn periodic_attention_positions(ratio: nat, period: nat)
    ensures
        periodic_type(ratio, (period + 1) * (ratio + 1) - 1) == LayerType::Attention,
        forall|k: int|
            0 <= k < ratio ==> #[trigger] periodic_type(ratio, period * (ratio + 1) + k)
                == LayerType::Linear,
{
    let p: int = ratio as int + 1;
    assert(((period + 1) * p) % p == 0) by (nonlinear_arith)
        requires
            p > 0,
    ;
    assert forall|k: int| 0 <= k < ratio implies #[trigger] periodic_type(
        ratio,
        period * (ratio + 1) + k,
    ) == LayerType::Linear by {
        assert((period * p + (k + 1)) % p == k + 1) by (nonlinear_arith)
            requires
                p > 0,
                0 < k + 1 < p,
        ;
    }
}

/// The first attention layer of a periodic schedule has `ratio` linear layers in front of it.
pub proof fn linear_layers_come_first(ratio: nat, i: int)
    requires
        0 <= i < ratio,
    ensures
        periodic_type(ratio, i) == LayerType::Linear,
{
    assert((i + 1) % (ratio as int + 1) == i + 1) by (nonlinear_arith)
        requires
            0 < i + 1 < ratio as int + 1,
    ;
}

} // verus!
