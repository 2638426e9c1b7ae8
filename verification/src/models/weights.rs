//! Deterministic pseudo-random weights.
//!
//! A weight is drawn in two steps: a 24-bit number from a generator, and the float that stands at
//! that fraction of a range. The second step is the caller's.

use vstd::prelude::*;

verus! {

/// The range of floats that a weight is drawn from.
#[derive(Debug, Clone, Copy, PartialEq, Eq, Structural)]
pub enum WeightRange {
    /// From 0 to 1.
    Unit,
    /// From `-1 / sqrt(fan)` to `1 / sqrt(fan)`.
    Scaled { fan: usize },
    /// From -1 to 0.
    Decay,
    /// From -0.01 to 0.01.
    NearZero,
}

/// The largest of the numbers drawn: the fraction that it stands for is 1.
pub const LARGEST_DRAW: u32 = 0xFF_FFFF;

/// The next state of the generator.
pub open spec fn next_state(s: u64) -> u64 {
    let a = s ^ (s << 13);
    let b = a ^ (a >> 7);
    b ^ (b << 17)
}

/// The state of the generator after `n` more draws.
pub open spec fn state_after(s: u64, n: nat) -> u64
    decreases n,
{
    if n == 0 {
        s
    } else {
        next_state(state_after(s, (n - 1) as nat))
    }
}

/// The state that a seed gives.
pub open spec fn seeded(seed: u64) -> u64 {
    if seed == u64::MAX {
        0
    } else {
        (seed + 1) as u64
    }
}

/// The number that a state stands for.
pub open spec fn number_of(s: u64) -> u32 {
    (s & 0xFF_FFFF) as u32
}

/// Whether `w` are the weights that `to_weight` makes of the numbers drawn from state `s` on.
pub open spec fn drawn<F: Fn(u32, WeightRange) -> u32>(
    to_weight: F,
    s: u64,
    range: WeightRange,
    w: Seq<u32>,
) -> bool {
    forall|i: int|
        0 <= i < w.len() ==> call_ensures(
            to_weight,
            (number_of(state_after(s, (i + 1) as nat)), range),
            #[trigger] w[i],
        )
}

/// Whether every number in every range has a weight.
pub open spec fn weighs_all<F: Fn(u32, WeightRange) -> u32>(to_weight: F) -> bool {
    forall|n: u32, range: WeightRange|
        n <= LARGEST_DRAW ==> #[trigger] call_requires(to_weight, (n, range))
}

/// Simple deterministic pseudo-random number generator for weight initialization.
#[derive(Debug, Clone, Copy, PartialEq, Eq, Structural)]
pub struct SimpleRng {
    pub state: u64,
}

impl SimpleRng {
    /// Start from a seed.
    pub fn new(seed: u64) -> (r: SimpleRng)
        ensures
            r.state == seeded(seed),
    {
        SimpleRng { state: seed.wrapping_add(1) }
    }

    /// The next number of the xorshift sequence.
    pub fn next_u64(&mut self) -> (r: u64)
        ensures
            r == next_state(old(self).state),
            final(self).state == r,
    {
        self.state = self.state ^ (self.state << 13);
        self.state = self.state ^ (self.state >> 7);
        self.state = self.state ^ (self.state << 17);
        self.state
    }

    /// The next fraction, as a number of `LARGEST_DRAW`-ths.
    pub fn next_number(&mut self) -> (r: u32)
        ensures
            final(self).state == next_state(old(self).state),
            r == number_of(final(self).state),
            r <= LARGEST_DRAW,
    {
        let s: u64 = self.next_u64();
        assert(s & 0xFF_FFFF <= 0xFF_FFFF) by (bit_vector);
        (s & 0xFF_FFFF) as u32
    }

    /// Draw `n` weights from a range.
    pub fn draw<F: Fn(u32, WeightRange) -> u32>(
        &mut self,
        n: usize,
        range: WeightRange,
        to_weight: &F,
    ) -> (r: Vec<u32>)
        requires
            weighs_all(*to_weight),
        ensures
            r.len() == n,
            drawn(*to_weight, old(self).state, range, r@),
            final(self).state == state_after(old(self).state, n as nat),
    {
        let mut w: Vec<u32> = Vec::new();
        let mut i: usize = 0;
        while i < n
            invariant
                i <= n,
                w.len() == i,
                weighs_all(*to_weight),
                drawn(*to_weight, old(self).state, range, w@),
                self.state == state_after(old(self).state, i as nat),
            decreases n - i,
        {
            let number: u32 = self.next_number();
            let weight: u32 = to_weight(number, range);
            w.push(weight);
            i += 1;
        }
        w
    }
}

/// The generator never stops at zero, from which it would not come away: only the largest seed
/// starts there.
pub proof fn draws_never_reach_zero(seed: u64, n: nat)
    requires
        seed != u64::MAX,
    ensures
        state_after(seeded(seed), n) != 0,
    decreases n,
{
    if n > 0 {
        draws_never_reach_zero(seed, (n - 1) as nat);
        let s: u64 = state_after(seeded(seed), (n - 1) as nat);
        let a: u64 = s ^ (s << 13);
        let b: u64 = a ^ (a >> 7);
        let c: u64 = b ^ (b << 17);
        assert(a != 0) by (bit_vector)
            requires
                s != 0,
                a == s ^ (s << 13),
        ;
        assert(b != 0) by (bit_vector)
            requires
                a != 0,
                b == a ^ (a >> 7),
        ;
        assert(c != 0) by (bit_vector)
            requires
                b != 0,
                c == b ^ (b << 17),
        ;
    }
}

/// Drawing in two goes is drawing in one.
pub proof fn draws_add_up(s: u64, m: nat, n: nat)
    ensures
        state_after(state_after(s, m), n) == state_after(s, m + n),
    decreases n,
{
    if n > 0 {
        draws_add_up(s, m, (n - 1) as nat);
    }
}

/// The same seed gives the same weights, where `to_weight` gives one weight for a number.
pub proof fn weights_follow_from_state<F: Fn(u32, WeightRange) -> u32>(
    to_weight: F,
    s: u64,
    range: WeightRange,
    a: Seq<u32>,
    b: Seq<u32>,
)
    requires
        forall|n: u32, x: u32, y: u32|
            #[trigger] call_ensures(to_weight, (n, range), x) && #[trigger] call_ensures(
                to_weight,
                (n, range),
                y,
            ) ==> x == y,
        a.len() == b.len(),
        drawn(to_weight, s, range, a),
        drawn(to_weight, s, range, b),
    ensures
        a == b,
{
    assert forall|i: int| 0 <= i < a.len() implies a[i] == b[i] by {
        let n: u32 = number_of(state_after(s, (i + 1) as nat));
        assert(call_ensures(to_weight, (n, range), a[i]));
        assert(call_ensures(to_weight, (n, range), b[i]));
    }
    assert(a =~= b);
}

} // verus!
