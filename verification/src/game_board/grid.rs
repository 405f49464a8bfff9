//! The grid as a mathematical value, and what each operation of the board
//! makes of it.

use crate::game_board::board_tile::{CellModel, Coord, TileModel};
use crate::game_board::census::{lemma_tally_bounds, lemma_tally_le, lemma_tally_same, tally};
use vstd::prelude::*;

verus! {

/// The tiles of the board by position.
pub type Grid = Map<Coord, TileModel>;

/// The board has six columns and six rows.
pub open spec fn in_grid(c: Coord) -> bool {
    c.0 < 6 && c.1 < 6
}

/// The order in which a sweep visits the tiles: by column, then by row.
pub open spec fn before(a: Coord, b: Coord) -> bool {
    a.0 < b.0 || (a.0 == b.0 && a.1 < b.1)
}

/// The neighbour above `c`, if the grid has one.
pub open spec fn up_of(c: Coord) -> Option<Coord> {
    if c.1 == 0 {
        None
    } else {
        Some((c.0, (c.1 - 1) as usize))
    }
}

/// The neighbour below `c`, if the grid has one.
pub open spec fn down_of(c: Coord) -> Option<Coord> {
    if c.1 == 5 {
        None
    } else {
        Some((c.0, (c.1 + 1) as usize))
    }
}

/// The neighbour to the left of `c`, if the grid has one.
pub open spec fn left_of(c: Coord) -> Option<Coord> {
    if c.0 == 0 {
        None
    } else {
        Some(((c.0 - 1) as usize, c.1))
    }
}

/// The neighbour to the right of `c`, if the grid has one.
pub open spec fn right_of(c: Coord) -> Option<Coord> {
    if c.0 == 5 {
        None
    } else {
        Some(((c.0 + 1) as usize, c.1))
    }
}

/// Whether `b` is one of the four neighbours of `a`.
pub open spec fn adjacent(a: Coord, b: Coord) -> bool {
    ||| left_of(a) == Some(b)
    ||| up_of(a) == Some(b)
    ||| down_of(a) == Some(b)
    ||| right_of(a) == Some(b)
}

/// The glyph of a zone whose atom lies to its left.
pub open spec fn glyph_from_left() -> Seq<char> {
    "<<"@
}

/// The glyph of a zone whose atom lies above it.
pub open spec fn glyph_from_above() -> Seq<char> {
    "^^"@
}

/// The glyph of a zone whose atom lies below it.
pub open spec fn glyph_from_below() -> Seq<char> {
    "vv"@
}

/// The glyph of a zone whose atom lies to its right.
pub open spec fn glyph_from_right() -> Seq<char> {
    ">>"@
}

/// An atom that can still take a bond, and so owns zones.
pub open spec fn is_source(g: Grid, a: Coord) -> bool {
    in_grid(a) && g[a].is_atom() && g[a].atom().bonds != 0
}

/// A zone at `c` for the atom at `t` is sound when `t` is a neighbour of
/// `c` that can still take a bond.
pub open spec fn zone_ok(g: Grid, c: Coord, t: Coord) -> bool {
    adjacent(c, t) && is_source(g, t)
}

/// The atom at `c` names a live root as the root of its compound; a root
/// names itself.
pub open spec fn rooted(g: Grid, c: Coord) -> bool {
    let p = g[c].atom().parent;
    &&& in_grid(p)
    &&& g[p].cell is Parent
    &&& g[p].atom().parent == p
    &&& g[c].cell is Parent ==> p == c
}

/// Whether the atom at `c` belongs to the compound rooted at `root`.
pub open spec fn member(g: Grid, root: Coord, c: Coord) -> bool {
    in_grid(c) && g[c].is_atom() && g[c].atom().parent == root
}

/// The property of belonging to the compound rooted at `root`.
pub open spec fn member_of(g: Grid, root: Coord) -> spec_fn(Coord) -> bool {
    |c: Coord| member(g, root, c)
}

/// The property of belonging to the compound rooted at `root` and having
/// no bond left to form.
pub open spec fn idle_of(g: Grid, root: Coord) -> spec_fn(Coord) -> bool {
    |c: Coord| member(g, root, c) && g[c].atom().bonds == 0
}

/// The root at `p` counts the atoms of its compound rightly, and counts no
/// atom as neutral that is not without a bond left to form.
pub open spec fn counted(g: Grid, p: Coord) -> bool {
    &&& g[p].cell->totals.atoms == tally(member_of(g, p))
    &&& g[p].cell->totals.neutral <= tally(idle_of(g, p))
}

/// What holds of the grid between operations.
pub open spec fn grid_wf(g: Grid) -> bool {
    &&& forall|c: Coord| g.dom().contains(c) <==> in_grid(c)
    &&& forall|c: Coord| in_grid(c) ==> (#[trigger] g[c]).wf()
    &&& forall|c: Coord|
        in_grid(c) && (#[trigger] g[c]).zone_target() is Some ==> zone_ok(
            g,
            c,
            g[c].zone_target()->0,
        )
    &&& forall|c: Coord| in_grid(c) && (#[trigger] g[c]).is_atom() ==> rooted(g, c)
    &&& forall|c: Coord| in_grid(c) && (#[trigger] g[c]).cell is Parent ==> counted(g, c)
}

/// Whether the neighbour `n` of a tile leaves the tile no choice but to
/// hold an atom or a zone: there is no such neighbour, or it cannot take a
/// bond, or the tile holds an atom or a zone, shown or remembered.
pub open spec fn covers(g: Grid, tile: TileModel, n: Option<Coord>) -> bool {
    n is Some && is_source(g, n->0) ==> tile.is_atom() || tile.zone_target() is Some
}

/// The frontier is whole: every tile beside an atom that can still take a
/// bond holds an atom or a zone.
#[verifier::opaque]
pub open spec fn covered(g: Grid) -> bool {
    forall|z: Coord|
        in_grid(z) ==> covers(g, #[trigger] g[z], left_of(z)) && covers(g, g[z], up_of(z))
            && covers(g, g[z], down_of(z)) && covers(g, g[z], right_of(z))
}

/// Two grids hold the same atoms on the same tiles.
pub open spec fn same_atoms(g: Grid, h: Grid) -> bool {
    forall|c: Coord|
        in_grid(c) ==> ((#[trigger] g[c]).is_atom() ==> h[c] == g[c]) && ((#[trigger] h[c]).is_atom()
            ==> g[c].is_atom())
}

/// Grids that hold the same atoms count their compounds alike.
pub proof fn lemma_counted_same_atoms(g: Grid, h: Grid)
    requires
        same_atoms(g, h),
        forall|c: Coord| in_grid(c) && (#[trigger] g[c]).cell is Parent ==> counted(g, c),
    ensures
        forall|c: Coord| in_grid(c) && (#[trigger] h[c]).cell is Parent ==> counted(h, c),
{
    assert forall|p: Coord| in_grid(p) && (#[trigger] h[p]).cell is Parent implies counted(
        h,
        p,
    ) by {
        assert(g[p].is_atom());
        assert(counted(g, p));
        assert forall|c: Coord| in_grid(c) implies #[trigger] member_of(g, p)(c) == member_of(
            h,
            p,
        )(c) by {
            assert(g[c].is_atom() ==> h[c] == g[c]);
        }
        assert forall|c: Coord| in_grid(c) implies #[trigger] idle_of(g, p)(c) == idle_of(h, p)(
            c,
        ) by {
            assert(g[c].is_atom() ==> h[c] == g[c]);
        }
        lemma_tally_same(member_of(g, p), member_of(h, p), 36);
        lemma_tally_same(idle_of(g, p), idle_of(h, p), 36);
    }
}

/// A compound has no more atoms than the grid has tiles, and no more
/// neutral atoms than atoms.
pub proof fn lemma_counts_small(g: Grid, p: Coord)
    requires
        counted(g, p),
    ensures
        0 <= g[p].cell->totals.neutral <= tally(idle_of(g, p)) <= tally(member_of(g, p)) <= 36,
        g[p].cell->totals.atoms == tally(member_of(g, p)),
{
    lemma_tally_bounds(member_of(g, p), 36);
    lemma_tally_le(idle_of(g, p), member_of(g, p), 36);
}

/// The grid of a new board.
pub open spec fn empty_grid() -> Grid {
    Map::new(|c: Coord| in_grid(c), |c: Coord| TileModel::empty())
}

/// Whether the atom at `a` takes a zone from the atom at `owner`: only a
/// different atom that was placed strictly earlier does.
pub open spec fn outranks(g: Grid, a: Coord, owner: Coord) -> bool {
    a != owner && g[a].atom().presedence < g[owner].atom().presedence
}

/// What a tile becomes when the atom at `a`, a neighbour that can still
/// take a bond, lays claim to it.
pub open spec fn claim(tile: TileModel, g: Grid, a: Coord, glyph: Seq<char>) -> TileModel {
    match tile.cell {
        CellModel::Empty => TileModel::bond_zone(glyph, a),
        CellModel::Bond { target } => if outranks(g, a, target) {
            TileModel::bond_zone(glyph, a)
        } else {
            tile
        },
        CellModel::Restricted { substate: Some(target), .. } => if outranks(g, a, target) {
            tile.with_substate(glyph, a)
        } else {
            tile
        },
        CellModel::Restricted { substate: None, .. } => tile.with_substate(glyph, a),
        _ => tile,
    }
}

/// The claim of the neighbour `n`, if there is one, it can still take a
/// bond, and the sweep has come to it before `pos`.
pub open spec fn offer(
    tile: TileModel,
    g: Grid,
    n: Option<Coord>,
    pos: Coord,
    glyph: Seq<char>,
) -> TileModel {
    match n {
        Some(a) => if before(a, pos) && is_source(g, a) {
            claim(tile, g, a, glyph)
        } else {
            tile
        },
        None => tile,
    }
}

/// The tile at `z` once the sweep has visited every tile before `pos`: its
/// neighbours have laid their claims in the order of the sweep.
pub open spec fn swept_upto(g: Grid, z: Coord, pos: Coord) -> TileModel {
    let t1 = offer(g[z], g, left_of(z), pos, glyph_from_left());
    let t2 = offer(t1, g, up_of(z), pos, glyph_from_above());
    let t3 = offer(t2, g, down_of(z), pos, glyph_from_below());
    offer(t3, g, right_of(z), pos, glyph_from_right())
}

/// The tile at `z` after a whole sweep.
pub open spec fn swept_tile(g: Grid, z: Coord) -> TileModel {
    swept_upto(g, z, (6, 0))
}

/// The grid after the frontier has been recomputed.
pub open spec fn sweep(g: Grid) -> Grid {
    Map::new(|c: Coord| in_grid(c), |c: Coord| swept_tile(g, c))
}

/// A tile without the zone it showed or remembered.
pub open spec fn stripped(tile: TileModel) -> TileModel {
    match tile.cell {
        CellModel::Bond { .. } => TileModel::empty(),
        CellModel::Restricted { substate: Some(_), .. } => tile.without_substate(),
        _ => tile,
    }
}

/// The grid without the zones around `t`.
pub open spec fn strip_around(g: Grid, t: Coord) -> Grid {
    Map::new(
        |c: Coord| in_grid(c),
        |c: Coord|
            if adjacent(t, c) {
                stripped(g[c])
            } else {
                g[c]
            },
    )
}

/// Whether the neighbour `n` exists, belongs to the compound rooted at
/// `root`, and comes before `pos`.
pub open spec fn member_at(g: Grid, root: Coord, n: Option<Coord>, pos: Coord) -> bool {
    n matches Some(a) && member(g, root, a) && before(a, pos)
}

/// Whether a neighbour of `z` that comes before `pos` belongs to the
/// compound rooted at `root`.
pub open spec fn touches(g: Grid, root: Coord, z: Coord, pos: Coord) -> bool {
    ||| member_at(g, root, left_of(z), pos)
    ||| member_at(g, root, up_of(z), pos)
    ||| member_at(g, root, down_of(z), pos)
    ||| member_at(g, root, right_of(z), pos)
}

/// The tile at `z` once the members of the compound that come before `pos`
/// are removed: a member is cleared, and a tile beside one loses its zone.
pub open spec fn razed_upto(g: Grid, root: Coord, z: Coord, pos: Coord) -> TileModel {
    if member(g, root, z) {
        if before(z, pos) {
            TileModel::empty()
        } else {
            g[z]
        }
    } else if touches(g, root, z, pos) {
        stripped(g[z])
    } else {
        g[z]
    }
}

/// The grid without the compound rooted at `root`.
pub open spec fn razed(g: Grid, root: Coord) -> Grid {
    Map::new(|c: Coord| in_grid(c), |c: Coord| razed_upto(g, root, c, (6, 0)))
}

/// The grid after every restriction has counted down one turn.
pub open spec fn aged(g: Grid) -> Grid {
    Map::new(
        |c: Coord| in_grid(c),
        |c: Coord|
            if g[c].cell is Restricted {
                g[c].decremented()
            } else {
                g[c]
            },
    )
}

/// The sweep leaves atoms as they are, and makes none.
pub proof fn lemma_swept_atoms(g: Grid, z: Coord, pos: Coord)
    ensures
        g[z].is_atom() ==> swept_upto(g, z, pos) == g[z],
        swept_upto(g, z, pos).is_atom() ==> g[z].is_atom(),
        swept_upto(g, z, pos).cell is Restricted <==> g[z].cell is Restricted,
        swept_upto(g, z, pos).wf() <==> g[z].wf(),
{
}

/// After any part of a sweep, a zone points at the atom it pointed at
/// before or at a neighbour that can still take a bond.
pub proof fn lemma_swept_target(g: Grid, z: Coord, pos: Coord)
    requires
        in_grid(z),
        g[z].zone_target() matches Some(t) ==> zone_ok(g, z, t),
    ensures
        swept_upto(g, z, pos).zone_target() matches Some(t) ==> zone_ok(g, z, t),
{
}

/// A sweep keeps a sound grid sound.
pub proof fn lemma_sweep_wf(g: Grid)
    requires
        grid_wf(g),
    ensures
        grid_wf(sweep(g)),
{
    let s = sweep(g);
    assert forall|c: Coord| in_grid(c) implies (#[trigger] s[c]).wf() by {
        lemma_swept_atoms(g, c, (6, 0));
    }
    assert forall|c: Coord| in_grid(c) && (#[trigger] s[c]).zone_target() is Some implies zone_ok(
        s,
        c,
        s[c].zone_target()->0,
    ) by {
        lemma_swept_target(g, c, (6, 0));
        let t = s[c].zone_target()->0;
        lemma_swept_atoms(g, t, (6, 0));
    }
    assert forall|c: Coord| in_grid(c) && (#[trigger] s[c]).is_atom() implies rooted(s, c) by {
        lemma_swept_atoms(g, c, (6, 0));
        let p = g[c].atom().parent;
        assert(rooted(g, c));
        lemma_swept_atoms(g, p, (6, 0));
    }
    assert(same_atoms(g, s)) by {
        assert forall|c: Coord| in_grid(c) implies ((#[trigger] g[c]).is_atom() ==> s[c] == g[c])
            && ((#[trigger] s[c]).is_atom() ==> g[c].is_atom()) by {
            lemma_swept_atoms(g, c, (6, 0));
        }
    }
    lemma_counted_same_atoms(g, s);
}

/// A sweep leaves the frontier whole.
pub proof fn lemma_sweep_covered(g: Grid)
    ensures
        covered(sweep(g)),
{
    reveal(covered);
    let s = sweep(g);
    assert forall|z: Coord| in_grid(z) implies covers(s, #[trigger] s[z], left_of(z)) && covers(
        s,
        s[z],
        up_of(z),
    ) && covers(s, s[z], down_of(z)) && covers(s, s[z], right_of(z)) by {
        if left_of(z) is Some {
            lemma_swept_atoms(g, left_of(z)->0, (6, 0));
        }
        if up_of(z) is Some {
            lemma_swept_atoms(g, up_of(z)->0, (6, 0));
        }
        if down_of(z) is Some {
            lemma_swept_atoms(g, down_of(z)->0, (6, 0));
        }
        if right_of(z) is Some {
            lemma_swept_atoms(g, right_of(z)->0, (6, 0));
        }
    }
}

/// A grid without atoms has its frontier whole, and a frontier stays
/// whole when tiles change that hold no atom before or after and lose no
/// zone.
pub proof fn lemma_covered_kept(g: Grid, h: Grid)
    requires
        same_atoms(g, h),
        forall|z: Coord|
            in_grid(z) && (#[trigger] g[z]).zone_target() is Some ==> h[z].zone_target() is Some,
    ensures
        covered(empty_grid()),
        covered(g) ==> covered(h),
{
    reveal(covered);
    if covered(g) {
        assert forall|z: Coord| in_grid(z) implies covers(h, #[trigger] h[z], left_of(z))
            && covers(h, h[z], up_of(z)) && covers(h, h[z], down_of(z)) && covers(
            h,
            h[z],
            right_of(z),
        ) by {
            assert(covers(g, g[z], left_of(z)) && covers(g, g[z], up_of(z)) && covers(
                g,
                g[z],
                down_of(z),
            ) && covers(g, g[z], right_of(z)));
            if left_of(z) is Some {
                assert(h[left_of(z)->0].is_atom() ==> g[left_of(z)->0].is_atom());
            }
            if up_of(z) is Some {
                assert(h[up_of(z)->0].is_atom() ==> g[up_of(z)->0].is_atom());
            }
            if down_of(z) is Some {
                assert(h[down_of(z)->0].is_atom() ==> g[down_of(z)->0].is_atom());
            }
            if right_of(z) is Some {
                assert(h[right_of(z)->0].is_atom() ==> g[right_of(z)->0].is_atom());
            }
        }
    }
}

} // verus!
