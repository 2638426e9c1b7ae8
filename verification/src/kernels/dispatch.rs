//! Sizes of compute grids.

use vstd::prelude::*;

verus! {

/// The extent of a grid or of a threadgroup.
#[derive(Debug, Clone, Copy, PartialEq, Eq, Structural)]
pub struct Size3 {
    pub width: usize,
    pub height: usize,
    pub depth: usize,
}

/// Sizes that a dispatch is given.
#[derive(Debug, Clone, Copy, PartialEq, Eq, Structural)]
pub enum Grid {
    /// So many threads, in threadgroups of the given size.
    Threads { threads: Size3, group: Size3 },
    /// So many threadgroups of the given size.
    Groups { groups: Size3, group: Size3 },
}

/// How a dispatch's sizes follow from the largest threadgroup that a pipeline allows.
#[derive(Debug, Clone, Copy, PartialEq, Eq, Structural)]
pub enum GridRule {
    /// Threads in threadgroups of a fixed size.
    Threads { threads: Size3, group: Size3 },
    /// Threads in a row, in threadgroups of at most `limit`.
    ThreadsUpTo { total: usize, limit: usize },
    /// Threadgroups of a fixed width.
    Groups { groups: Size3, group_width: usize },
    /// Threadgroups of at most `limit` threads.
    GroupsUpTo { groups: Size3, limit: usize },
    /// As many threadgroups of at most `elements` threads as cover all elements.
    Covering { elements: usize },
}

/// A row of `n`.
pub open spec fn row(n: usize) -> Size3 {
    Size3 { width: n, height: 1, depth: 1 }
}

/// The smaller of two sizes.
pub open spec fn least(a: usize, b: usize) -> usize {
    if a <= b {
        a
    } else {
        b
    }
}

/// How many groups of `size` cover `n` elements.
pub open spec fn groups_covering(n: nat, size: nat) -> nat {
    (n + size - 1) as nat / size
}

impl GridRule {
    /// The sizes for a pipeline that allows threadgroups of up to `max_threads`.
    pub open spec fn sizes(self, max_threads: usize) -> Grid {
        match self {
            GridRule::Threads { threads, group } => Grid::Threads { threads, group },
            GridRule::ThreadsUpTo { total, limit } => Grid::Threads {
                threads: row(total),
                group: row(least(max_threads, limit)),
            },
            GridRule::Groups { groups, group_width } => Grid::Groups {
                groups,
                group: row(group_width),
            },
            GridRule::GroupsUpTo { groups, limit } => Grid::Groups {
                groups,
                group: row(least(limit, max_threads)),
            },
            GridRule::Covering { elements } => Grid::Groups {
                groups: row(
                    groups_covering(
                        elements as nat,
                        least(elements, max_threads) as nat,
                    ) as usize,
                ),
                group: row(least(elements, max_threads)),
            },
        }
    }

    /// The sizes for a pipeline that allows threadgroups of up to `max_threads`.
    pub fn resolve(&self, max_threads: usize) -> (r: Grid)
        requires
            self matches GridRule::Covering { elements } ==> elements > 0 && max_threads > 0,
        ensures
            r == self.sizes(max_threads),
    {
        match *self {
            GridRule::Threads { threads, group } => Grid::Threads { threads, group },
            GridRule::ThreadsUpTo { total, limit } => Grid::Threads {
                threads: Size3 { width: total, height: 1, depth: 1 },
                group: Size3 { width: smaller(max_threads, limit), height: 1, depth: 1 },
            },
            GridRule::Groups { groups, group_width } => Grid::Groups {
                groups,
                group: Size3 { width: group_width, height: 1, depth: 1 },
            },
            GridRule::GroupsUpTo { groups, limit } => Grid::Groups {
                groups,
                group: Size3 { width: smaller(limit, max_threads), height: 1, depth: 1 },
            },
            GridRule::Covering { elements } => {
                let width: usize = smaller(elements, max_threads);
                Grid::Groups {
                    groups: Size3 { width: ceil_div(elements, width), height: 1, depth: 1 },
                    group: Size3 { width, height: 1, depth: 1 },
                }
            },
        }
    }
}

/// The smaller of two sizes.
pub fn smaller(a: usize, b: usize) -> (r: usize)
    ensures
        r == least(a, b),
{
    if a <= b {
        a
    } else {
        b
    }
}

/// How many groups of `size` cover `n` elements.
pub fn ceil_div(n: usize, size: usize) -> (r: usize)
    requires
        size > 0,
    ensures
        r == groups_covering(n as nat, size as nat),
{
    let whole: usize = n / size;
    proof {
        assert((n + size - 1) as nat / (size as nat) == if n % size == 0 {
            (n / size) as int
        } else {
            n / size + 1
        }) by (nonlinear_arith)
            requires
                size > 0,
        ;
        assert(n / size <= n) by (nonlinear_arith)
            requires
                size > 0,
        ;
        assert(n % size != 0 ==> n / size < n) by (nonlinear_arith)
            requires
                size > 0,
        ;
    }
    if n % size == 0 {
        whole
    } else {
        whole + 1
    }
}

/// Enough groups cover every element, and one group less would not.
pub proof fn groups_cover_exactly(n: nat, size: nat)
    requires
        size > 0,
    ensures
        groups_covering(n, size) * size >= n,
        n > 0 ==> (groups_covering(n, size) - 1) * size < n,
{
    let g: int = groups_covering(n, size) as int;
    let s: int = size as int;
    assert(g * s >= n && g * s <= n + s - 1) by (nonlinear_arith)
        requires
            s > 0,
            g == (n + s - 1) / s,
    ;
    assert((g - 1) * s == g * s - s) by (nonlinear_arith);
}

/// Sizes for a row of threads: threadgroups of at most 256.
pub fn dispatch_1d(total_threads: usize, max_threads: usize) -> (r: Grid)
    ensures
        r == (Grid::Threads { threads: row(total_threads), group: row(least(max_threads, 256)) }),
{
    GridRule::ThreadsUpTo { total: total_threads, limit: 256 }.resolve(max_threads)
}

/// The side of the largest square threadgroup of at most `max_threads`, up to 16 by 16.
pub open spec fn is_square_side(side: nat, max_threads: nat) -> bool {
    &&& side <= 16
    &&& side * side <= max_threads
    &&& side == 16 || (side + 1) * (side + 1) > max_threads
}

/// Sizes for a plane of threads: square threadgroups, 16 by 16 where the pipeline allows it.
pub fn dispatch_2d(width: usize, height: usize, max_threads: usize) -> (r: Grid)
    ensures
        r matches Grid::Threads { threads, group } && threads == (Size3 {
            width,
            height,
            depth: 1,
        }) && group.width == group.height && group.depth == 1 && is_square_side(
            group.width as nat,
            max_threads as nat,
        ),
{
    let mut side: usize = 0;
    while side < 16 && (side + 1) * (side + 1) <= max_threads
        invariant
            side <= 16,
            side * side <= max_threads,
            (side + 1) * (side + 1) <= 17 * 17,
        decreases 16 - side,
    {
        side = side + 1;
        assert((side + 1) * (side + 1) <= 17 * 17) by (nonlinear_arith)
            requires
                side <= 16,
        ;
    }
    Grid::Threads {
        threads: Size3 { width, height, depth: 1 },
        group: Size3 { width: side, height: side, depth: 1 },
    }
}

/// A square threadgroup has one side length only.
pub proof fn square_side_is_unique(a: nat, b: nat, max_threads: nat)
    requires
        is_square_side(a, max_threads),
        is_square_side(b, max_threads),
    ensures
        a == b,
{
    if a < b {
        assert((a + 1) * (a + 1) <= b * b) by (nonlinear_arith)
            requires
                a + 1 <= b,
        ;
    }
    if b < a {
        assert((b + 1) * (b + 1) <= a * a) by (nonlinear_arith)
            requires
                b + 1 <= a,
        ;
    }
}

} // verus!
