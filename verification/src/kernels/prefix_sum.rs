//! Running sums of matrices.
//!
//! Elements are 32-bit floats, held by their bit patterns; adding two of them is the caller's.

use vstd::prelude::*;

verus! {

/// Whether `sums` are the running sums of matrices of `cells` elements each: the first matrix as it
/// is, and then in each place the sum before plus the matrix's own element.
pub open spec fn running_sums<F: Fn(u32, u32) -> u32>(
    plus: F,
    input: Seq<u32>,
    cells: nat,
    sums: Seq<u32>,
) -> bool {
    &&& sums.len() == input.len()
    &&& forall|i: int| 0 <= i < cells && i < sums.len() ==> #[trigger] sums[i] == input[i]
    &&& forall|i: int|
        cells <= i < sums.len() ==> call_ensures(
            plus,
            (sums[i - cells], input[i]),
            #[trigger] sums[i],
        )
}

/// Inclusive prefix sum over `n_matrices` matrices of `d` by `d` elements.
pub fn cpu_prefix_sum<F: Fn(u32, u32) -> u32>(
    input: &[u32],
    n_matrices: usize,
    d: usize,
    plus: &F,
) -> (r: Vec<u32>)
    requires
        d * d <= usize::MAX,
        input.len() == n_matrices * (d * d),
        n_matrices > 0 || d == 0,
        forall|a: u32, b: u32| #[trigger] call_requires(*plus, (a, b)),
    ensures
        running_sums(*plus, input@, (d * d) as nat, r@),
{
    let dd: usize = d * d;
    let mut output: Vec<u32> = Vec::new();
    let mut i: usize = 0;
    while i < input.len()
        invariant
            i <= input.len(),
            output.len() == i,
            forall|a: u32, b: u32| #[trigger] call_requires(*plus, (a, b)),
            input.len() > 0 ==> dd > 0,
            running_sums(*plus, input@.take(i as int), dd as nat, output@),
        decreases input.len() - i,
    {
        let ghost before: Seq<u32> = output@;
        if i < dd {
            output.push(input[i]);
        } else {
            let sum: u32 = plus(output[i - dd], input[i]);
            output.push(sum);
        }
        i += 1;
        proof {
            let now: Seq<u32> = output@;
            assert forall|k: int| 0 <= k < dd && k < now.len() implies #[trigger] now[k]
                == input@.take(i as int)[k] by {
                if k < i - 1 {
                    assert(now[k] == before[k]);
                }
            }
            assert forall|k: int| dd <= k < now.len() implies call_ensures(
                *plus,
                (now[k - dd], input@.take(i as int)[k]),
                #[trigger] now[k],
            ) by {
                if k < i - 1 {
                    assert(now[k] == before[k]);
                    assert(now[k - dd] == before[k - dd]);
                    assert(input@.take(i as int)[k] == input@.take(i - 1)[k]);
                } else {
                    assert(now[k - dd] == before[k - dd]);
                }
            }
        }
    }
    assert(input@.take(i as int) =~= input@);
    output
}

} // verus!
