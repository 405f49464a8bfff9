//! Counting the tiles of the grid that have a property.

use crate::game_board::board_tile::Coord;
use crate::game_board::grid::in_grid;
use vstd::prelude::*;

verus! {

/// The tile that the sweep visits as its `k`th, counting from 0.
pub open spec fn cell(k: int) -> Coord {
    ((k / 6) as usize, (k % 6) as usize)
}

/// How many of the first `k` tiles of the grid have the property `f`.
pub open spec fn tally_upto(f: spec_fn(Coord) -> bool, k: int) -> int
    decreases k,
{
    if k <= 0 {
        0
    } else {
        tally_upto(f, k - 1) + if f(cell(k - 1)) {
            1int
        } else {
            0int
        }
    }
}

/// How many tiles of the grid have the property `f`.
pub open spec fn tally(f: spec_fn(Coord) -> bool) -> int {
    tally_upto(f, 36)
}

/// Every tile of the grid has its place in the order of the sweep.
pub proof fn lemma_cell(c: Coord)
    requires
        in_grid(c),
    ensures
        0 <= c.0 * 6 + c.1 < 36,
        cell(c.0 * 6 + c.1) == c,
{
}

/// A count lies between nothing and all.
pub proof fn lemma_tally_bounds(f: spec_fn(Coord) -> bool, k: int)
    requires
        0 <= k,
    ensures
        0 <= tally_upto(f, k) <= k,
    decreases k,
{
    if k > 0 {
        lemma_tally_bounds(f, k - 1);
    }
}

/// A property that implies another has no more tiles than the other.
pub proof fn lemma_tally_le(f: spec_fn(Coord) -> bool, g: spec_fn(Coord) -> bool, k: int)
    requires
        0 <= k <= 36,
        forall|c: Coord| in_grid(c) && #[trigger] f(c) ==> g(c),
    ensures
        tally_upto(f, k) <= tally_upto(g, k),
    decreases k,
{
    if k > 0 {
        lemma_tally_le(f, g, k - 1);
        assert(in_grid(cell(k - 1)));
    }
}

/// Properties that the same tiles have are counted alike.
pub proof fn lemma_tally_same(f: spec_fn(Coord) -> bool, g: spec_fn(Coord) -> bool, k: int)
    requires
        0 <= k <= 36,
        forall|c: Coord| in_grid(c) ==> #[trigger] f(c) == g(c),
    ensures
        tally_upto(f, k) == tally_upto(g, k),
    decreases k,
{
    if k > 0 {
        lemma_tally_same(f, g, k - 1);
        assert(in_grid(cell(k - 1)));
    }
}

/// A property that one more tile has is counted one higher.
pub proof fn lemma_tally_one_more(
    f: spec_fn(Coord) -> bool,
    g: spec_fn(Coord) -> bool,
    extra: Coord,
    k: int,
)
    requires
        0 <= k <= 36,
        in_grid(extra),
        !f(extra),
        g(extra),
        forall|c: Coord| in_grid(c) && c != extra ==> #[trigger] f(c) == g(c),
    ensures
        tally_upto(g, k) == tally_upto(f, k) + if extra.0 * 6 + extra.1 < k {
            1int
        } else {
            0int
        },
    decreases k,
{
    if k > 0 {
        lemma_tally_one_more(f, g, extra, k - 1);
        assert(in_grid(cell(k - 1)));
        lemma_cell(extra);
        if cell(k - 1) == extra {
            assert(k - 1 == extra.0 * 6 + extra.1);
        }
    }
}

/// Where a property implies another and both have as many tiles, the same
/// tiles have them.
pub proof fn lemma_tally_all(f: spec_fn(Coord) -> bool, g: spec_fn(Coord) -> bool, k: int)
    requires
        0 <= k <= 36,
        forall|c: Coord| in_grid(c) && #[trigger] f(c) ==> g(c),
        tally_upto(f, k) >= tally_upto(g, k),
    ensures
        forall|c: Coord| in_grid(c) && c.0 * 6 + c.1 < k && #[trigger] g(c) ==> f(c),
    decreases k,
{
    if k > 0 {
        lemma_tally_le(f, g, k - 1);
        assert(in_grid(cell(k - 1)));
        lemma_tally_all(f, g, k - 1);
        assert forall|c: Coord| in_grid(c) && c.0 * 6 + c.1 < k && #[trigger] g(c) implies f(c) by {
            lemma_cell(c);
            if c.0 * 6 + c.1 == k - 1 {
                assert(cell(k - 1) == c);
            }
        }
    }
}

/// A property that no tile has is counted as nothing.
pub proof fn lemma_tally_none(f: spec_fn(Coord) -> bool, k: int)
    requires
        0 <= k <= 36,
        forall|c: Coord| in_grid(c) ==> !#[trigger] f(c),
    ensures
        tally_upto(f, k) == 0,
    decreases k,
{
    if k > 0 {
        lemma_tally_none(f, k - 1);
        assert(in_grid(cell(k - 1)));
    }
}

} // verus!
