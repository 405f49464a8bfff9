//! Why the loops of the board do what the grid says: the steps of a
//! sweep, of the upkeep of the restrictions, and of the removal of zones.

use crate::game_board::board_tile::{Coord, TileModel};
use crate::game_board::grid::{
    Grid, before, claim, down_of, glyph_from_above, glyph_from_below, glyph_from_left,
    glyph_from_right, grid_wf, in_grid, is_source, left_of, lemma_swept_atoms,
    lemma_swept_target, right_of, stripped, swept_upto, up_of,
};
use vstd::prelude::*;

verus! {

/// Every zone points at a tile of the grid that holds an atom.
pub open spec fn targets_live(g: Grid) -> bool {
    forall|n: Coord|
        in_grid(n) && (#[trigger] g[n]).zone_target() is Some ==> in_grid(g[n].zone_target()->0)
            && g[g[n].zone_target()->0].is_atom()
}

/// The grid after the atom at `a` has laid claim to the neighbour `n`.
pub open spec fn claim_at(g: Grid, n: Option<Coord>, a: Coord, glyph: Seq<char>) -> Grid {
    match n {
        Some(n) => g.insert(n, claim(g[n], g, a, glyph)),
        None => g,
    }
}

/// The grid after the atom at `a` has laid claim to its four neighbours.
pub open spec fn claimed_around(g: Grid, a: Coord) -> Grid {
    let g1 = claim_at(g, up_of(a), a, glyph_from_below());
    let g2 = claim_at(g1, down_of(a), a, glyph_from_above());
    let g3 = claim_at(g2, left_of(a), a, glyph_from_right());
    claim_at(g3, right_of(a), a, glyph_from_left())
}

/// A claim reads the grid only at the claimant and at the owner of the
/// zone.
pub proof fn lemma_claim_agree(tile: TileModel, g1: Grid, g2: Grid, a: Coord, glyph: Seq<char>)
    requires
        g1[a] == g2[a],
        tile.zone_target() matches Some(t) ==> g1[t] == g2[t],
    ensures
        claim(tile, g1, a, glyph) == claim(tile, g2, a, glyph),
{
}

/// The tile that the claim of `a` on the neighbour `n` leaves at `z`.
pub proof fn lemma_claim_at(g: Grid, n: Option<Coord>, a: Coord, glyph: Seq<char>, z: Coord)
    requires
        targets_live(g),
        forall|c: Coord| g.dom().contains(c) <==> in_grid(c),
        n matches Some(m) ==> in_grid(m),
        in_grid(z),
        in_grid(a),
        g[a].is_atom(),
    ensures
        claim_at(g, n, a, glyph)[z] == (if n == Some(z) {
            claim(g[z], g, a, glyph)
        } else {
            g[z]
        }),
        targets_live(claim_at(g, n, a, glyph)),
        forall|c: Coord| claim_at(g, n, a, glyph).dom().contains(c) <==> in_grid(c),
        forall|c: Coord| g[c].is_atom() ==> claim_at(g, n, a, glyph)[c] == g[c],
{
    let h = claim_at(g, n, a, glyph);
    assert forall|c: Coord| in_grid(c) && (#[trigger] h[c]).zone_target() is Some implies in_grid(
        h[c].zone_target()->0,
    ) && h[h[c].zone_target()->0].is_atom() by {
        let t = h[c].zone_target()->0;
        if n == Some(c) {
            assert(t == a || g[c].zone_target() == Some(t));
        } else {
            assert(h[c] == g[c]);
        }
        assert(g[t].is_atom());
    }
}

/// The tile that the claims of `a` on its four neighbours leave at `z`.
pub proof fn lemma_claimed_around(g: Grid, a: Coord, z: Coord)
    requires
        targets_live(g),
        forall|c: Coord| g.dom().contains(c) <==> in_grid(c),
        in_grid(z),
        in_grid(a),
        g[a].is_atom(),
    ensures
        claimed_around(g, a)[z] == (if up_of(a) == Some(z) {
            claim(g[z], g, a, glyph_from_below())
        } else if down_of(a) == Some(z) {
            claim(g[z], g, a, glyph_from_above())
        } else if left_of(a) == Some(z) {
            claim(g[z], g, a, glyph_from_right())
        } else if right_of(a) == Some(z) {
            claim(g[z], g, a, glyph_from_left())
        } else {
            g[z]
        }),
        forall|c: Coord| claimed_around(g, a).dom().contains(c) <==> in_grid(c),
{
    let g1 = claim_at(g, up_of(a), a, glyph_from_below());
    let g2 = claim_at(g1, down_of(a), a, glyph_from_above());
    let g3 = claim_at(g2, left_of(a), a, glyph_from_right());
    let g4 = claim_at(g3, right_of(a), a, glyph_from_left());
    lemma_claim_at(g, up_of(a), a, glyph_from_below(), z);
    lemma_claim_at(g1, down_of(a), a, glyph_from_above(), z);
    lemma_claim_at(g2, left_of(a), a, glyph_from_right(), z);
    lemma_claim_at(g3, right_of(a), a, glyph_from_left(), z);
    if g[z].zone_target() is Some {
        let t = g[z].zone_target()->0;
        assert(g[t].is_atom());
        assert(g1[t] == g[t] && g2[t] == g[t] && g3[t] == g[t]);
    }
    lemma_claim_agree(g[z], g1, g, a, glyph_from_above());
    lemma_claim_agree(g[z], g2, g, a, glyph_from_right());
    lemma_claim_agree(g[z], g3, g, a, glyph_from_left());
}

/// What the visit of `a` adds to the tile at `z` in the course of a sweep.
pub proof fn lemma_swept_next(g0: Grid, a: Coord, z: Coord)
    requires
        in_grid(a),
        in_grid(z),
    ensures
        swept_upto(g0, z, (a.0, (a.1 + 1) as usize)) == (if !is_source(g0, a) {
            swept_upto(g0, z, a)
        } else if up_of(a) == Some(z) {
            claim(swept_upto(g0, z, a), g0, a, glyph_from_below())
        } else if down_of(a) == Some(z) {
            claim(swept_upto(g0, z, a), g0, a, glyph_from_above())
        } else if left_of(a) == Some(z) {
            claim(swept_upto(g0, z, a), g0, a, glyph_from_right())
        } else if right_of(a) == Some(z) {
            claim(swept_upto(g0, z, a), g0, a, glyph_from_left())
        } else {
            swept_upto(g0, z, a)
        }),
{
}

/// One step of the sweep: when every tile stands as the sweep leaves it
/// before `a`, the visit of `a` leaves every tile as the sweep leaves it
/// before the tile after `a`.
pub proof fn lemma_sweep_step(g0: Grid, cur: Grid, next: Grid, a: Coord)
    requires
        grid_wf(g0),
        in_grid(a),
        forall|z: Coord| cur.dom().contains(z) <==> in_grid(z),
        forall|z: Coord| in_grid(z) ==> #[trigger] cur[z] == swept_upto(g0, z, a),
        next == (if is_source(cur, a) {
            claimed_around(cur, a)
        } else {
            cur
        }),
    ensures
        forall|z: Coord| next.dom().contains(z) <==> in_grid(z),
        forall|z: Coord|
            in_grid(z) ==> #[trigger] next[z] == swept_upto(g0, z, (a.0, (a.1 + 1) as usize)),
{
    let pos = (a.0, (a.1 + 1) as usize);
    lemma_mid_sweep(g0, cur, a);
    assert(cur[a] == swept_upto(g0, a, a));
    lemma_swept_atoms(g0, a, a);
    if is_source(cur, a) {
        assert forall|z: Coord| in_grid(z) implies #[trigger] next[z] == swept_upto(g0, z, pos) by {
            lemma_claimed_around(cur, a, z);
            lemma_swept_next(g0, a, z);
            assert(cur[z] == swept_upto(g0, z, a));
            if cur[z].zone_target() is Some {
                let t = cur[z].zone_target()->0;
                assert(cur[t].is_atom());
                assert(cur[t] == swept_upto(g0, t, a));
                lemma_swept_atoms(g0, t, a);
            }
            lemma_claim_agree(cur[z], cur, g0, a, glyph_from_below());
            lemma_claim_agree(cur[z], cur, g0, a, glyph_from_above());
            lemma_claim_agree(cur[z], cur, g0, a, glyph_from_right());
            lemma_claim_agree(cur[z], cur, g0, a, glyph_from_left());
        }
        lemma_claimed_around(cur, a, a);
    } else {
        assert forall|z: Coord| in_grid(z) implies #[trigger] next[z] == swept_upto(g0, z, pos) by {
            lemma_swept_next(g0, a, z);
            assert(cur[z] == swept_upto(g0, z, a));
        }
    }
}

/// In the course of a sweep every zone points at a live atom.
pub proof fn lemma_mid_sweep(g0: Grid, cur: Grid, pos: Coord)
    requires
        grid_wf(g0),
        forall|z: Coord| in_grid(z) ==> #[trigger] cur[z] == swept_upto(g0, z, pos),
    ensures
        targets_live(cur),
{
    assert forall|n: Coord| in_grid(n) && (#[trigger] cur[n]).zone_target() is Some implies in_grid(
        cur[n].zone_target()->0,
    ) && cur[cur[n].zone_target()->0].is_atom() by {
        assert(cur[n] == swept_upto(g0, n, pos));
        lemma_swept_target(g0, n, pos);
        let t = cur[n].zone_target()->0;
        assert(cur[t] == swept_upto(g0, t, pos));
        lemma_swept_atoms(g0, t, pos);
    }
}

/// The tile at `z` once the restrictions before `pos` have counted down.
pub open spec fn aged_upto(g: Grid, z: Coord, pos: Coord) -> TileModel {
    if before(z, pos) && g[z].cell is Restricted {
        g[z].decremented()
    } else {
        g[z]
    }
}

/// Removing a zone twice is removing it once, and atoms have none.
pub proof fn lemma_stripped(tile: TileModel)
    ensures
        stripped(stripped(tile)) == stripped(tile),
        tile.is_atom() ==> stripped(tile) == tile,
        stripped(TileModel::empty()) == TileModel::empty(),
{
}

} // verus!
