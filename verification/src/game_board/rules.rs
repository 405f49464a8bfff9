//! What each operation of the board makes of a board, stated on the
//! mathematical value of the board.

use crate::game_board::board_tile::{AtomData, CellModel, Color, Coord, TileModel, saturate};
use crate::game_board::census::{
    lemma_tally_bounds, lemma_tally_none, lemma_tally_one_more, lemma_tally_same,
};
use crate::game_board::grid::{
    Grid, adjacent, aged, counted, grid_wf, idle_of, in_grid, lemma_counted_same_atoms,
    lemma_counts_small, member, member_of, razed, rooted, same_atoms, strip_around, stripped,
    sweep, zone_ok,
};
use vstd::prelude::*;

verus! {

/// The mathematical value of a board.
pub struct BoardModel {
    pub tiles: Grid,
    pub palette: Seq<Color>,
}

/// The mathematical value of what an operation reports.
pub struct StatusModel {
    pub error: Option<Seq<char>>,
    pub points: Option<u16>,
}

/// An atom as it comes from a card.
pub struct Play {
    pub symbol: Seq<char>,
    pub bonds: u16,
    pub is_metal: bool,
    pub presedence: u8,
    pub atomic_number: u16,
}

/// What is said of a play on a tile that holds an atom.
pub open spec fn msg_occupied() -> Seq<char> {
    "Error: Selected space is occupied."@
}

/// What is said of a play on a restricted tile.
pub open spec fn msg_restricted() -> Seq<char> {
    "Error: Selected space is Restricted."@
}

/// What is said of a metal played on the zone of a metal.
pub open spec fn msg_metal_direct() -> Seq<char> {
    "Error: Metals cannot bond with each other."@
}

/// What is said of a metal played into a compound that holds another.
pub open spec fn msg_metal_mismatch() -> Seq<char> {
    "Error: Compounds can only contain one type of metal."@
}

/// What is said of a restriction on a tile that holds an atom.
pub open spec fn msg_restrict_atom() -> Seq<char> {
    "Error: Cannot restrict on top of atoms."@
}

/// What is said of a restriction on a restricted tile.
pub open spec fn msg_restrict_twice() -> Seq<char> {
    "Error: Zone is already restricted."@
}

/// What is said of the removal of a compound where there is none.
pub open spec fn msg_no_compound() -> Seq<char> {
    "Error: No compound specified."@
}

/// The report of an operation that was turned down.
pub open spec fn rejected(message: Seq<char>) -> StatusModel {
    StatusModel { error: Some(message), points: None }
}

/// The report of an operation that was carried out.
pub open spec fn accepted(points: Option<u16>) -> StatusModel {
    StatusModel { error: None, points }
}

/// The atom that the zone at `c` points at.
pub open spec fn target_of(g: Grid, c: Coord) -> Coord
    recommends
        g[c].cell is Bond,
{
    g[c].cell->target
}

/// The root of the compound that the zone at `c` leads into.
pub open spec fn root_of(g: Grid, c: Coord) -> Coord
    recommends
        g[c].cell is Bond,
{
    g[target_of(g, c)].atom().parent
}

/// Why a metal may not be played on the zone at `c`: the compound already
/// holds another metal, or the atom behind the zone is a metal itself.
pub open spec fn metal_refusal(g: Grid, c: Coord, play: Play) -> Option<Seq<char>>
    recommends
        g[c].cell is Bond,
{
    let tag = g[root_of(g, c)].cell->metal;
    if !play.is_metal {
        None
    } else if tag is Some && tag != Some(play.symbol) {
        Some(msg_metal_mismatch())
    } else if g[target_of(g, c)].atom().is_metal {
        Some(msg_metal_direct())
    } else {
        None
    }
}

/// The grid with a new root at `c`, before the frontier is recomputed.
pub open spec fn root_placed(g: Grid, c: Coord, play: Play, color: Color) -> Grid {
    g.insert(
        c,
        TileModel::parent_zone(
            play.symbol,
            AtomData {
                parent: c,
                bonds: play.bonds,
                is_metal: play.is_metal,
                presedence: play.presedence,
            },
            if play.is_metal {
                Some(play.symbol)
            } else {
                None
            },
            play.atomic_number,
        ).with_color(color),
    )
}

/// How many of the two atoms of a new bond it leaves neutral.
pub open spec fn neutral_made(played: u16, target: u16) -> u8 {
    if played == target {
        2u8
    } else {
        1u8
    }
}

/// The root of the compound once the atom played on the zone at `c` has
/// joined it.
pub open spec fn joined_root(g: Grid, c: Coord, play: Play) -> TileModel
    recommends
        g[c].cell is Bond,
{
    let t = target_of(g, c);
    let p = root_of(g, c);
    let partner = g[t].atom().bonds;
    let root = if p == t {
        g[p].bonded(play.bonds)
    } else {
        g[p]
    };
    root.joined(
        neutral_made(play.bonds, partner),
        play.atomic_number,
        (play.bonds - saturate(play.bonds, partner)) as u16,
        if play.is_metal {
            Some(play.symbol)
        } else {
            None
        },
    )
}

/// The grid once the atom is attached on the zone at `c`, before the
/// frontier is recomputed: the new atom and the atom behind the zone are
/// bonded, the zones around a partner that became neutral are gone, and the
/// root has counted the new atom in.
pub open spec fn attached(g: Grid, c: Coord, play: Play) -> Grid
    recommends
        g[c].cell is Bond,
{
    let t = target_of(g, c);
    let p = root_of(g, c);
    let partner = g[t].atom().bonds;
    let g1 = g.insert(
        c,
        TileModel::atom_zone(
            play.symbol,
            AtomData {
                parent: p,
                bonds: saturate(play.bonds, partner),
                is_metal: play.is_metal,
                presedence: play.presedence,
            },
        ).with_color(g[p].color),
    );
    let g2 = g1.insert(t, g[t].bonded(play.bonds));
    let g3 = if partner <= play.bonds {
        strip_around(g2, t)
    } else {
        g2
    };
    g3.insert(p, joined_root(g, c, play))
}

/// Whether the atomic sum of the compound behind the zone at `c` can take
/// the atom in, and the score, should the atom complete the compound, can
/// be reported.
pub open spec fn join_in_range(g: Grid, c: Coord, play: Play) -> bool
    recommends
        g[c].cell is Bond,
{
    &&& g[root_of(g, c)].cell->totals.atomic_sum + play.atomic_number <= u16::MAX
    &&& joined_root(g, c, play).complete() ==> joined_root(g, c, play).score() <= u16::MAX
}

/// Whether an attachment at `c` can be carried out: a root needs a colour
/// that is still to be had, and an atom that joins a compound needs room
/// in the compound's atomic sum and score.
pub open spec fn attach_fits(b: BoardModel, c: Coord, play: Play) -> bool {
    match b.tiles[c].cell {
        CellModel::Empty => b.palette.len() > 0,
        CellModel::Bond { .. } => metal_refusal(b.tiles, c, play) is None ==> join_in_range(
            b.tiles,
            c,
            play,
        ),
        _ => true,
    }
}

/// The points of an attachment on the zone at `c`: the score of the
/// compound when the atom completes it.
pub open spec fn join_points(g: Grid, c: Coord, play: Play) -> Option<u16>
    recommends
        g[c].cell is Bond,
{
    if joined_root(g, c, play).complete() {
        Some(joined_root(g, c, play).score() as u16)
    } else {
        None
    }
}

/// What an attachment at `c` makes of the board and reports, where `pick`
/// is the place in the palette of the colour a new root is given.
pub open spec fn attach(b: BoardModel, c: Coord, play: Play, pick: int) -> (
    BoardModel,
    StatusModel,
) {
    match b.tiles[c].cell {
        CellModel::Empty => (
            BoardModel {
                tiles: sweep(root_placed(b.tiles, c, play, b.palette[pick])),
                palette: b.palette.remove(pick),
            },
            accepted(None),
        ),
        CellModel::Bond { .. } => match metal_refusal(b.tiles, c, play) {
            Some(message) => (b, rejected(message)),
            None => (
                BoardModel { tiles: sweep(attached(b.tiles, c, play)), palette: b.palette },
                accepted(join_points(b.tiles, c, play)),
            ),
        },
        CellModel::Restricted { .. } => (b, rejected(msg_restricted())),
        _ => (b, rejected(msg_occupied())),
    }
}

/// Why the tile at `c` cannot be restricted, if it cannot.
pub open spec fn restrict_refusal(g: Grid, c: Coord) -> Option<Seq<char>> {
    if g[c].is_atom() {
        Some(msg_restrict_atom())
    } else if g[c].cell is Restricted {
        Some(msg_restrict_twice())
    } else {
        None
    }
}

/// What restricting `c1` and `c2` makes of the grid and reports: both tiles
/// are restricted, or neither is.
pub open spec fn restrict(g: Grid, c1: Coord, c2: Coord) -> (Grid, StatusModel) {
    if restrict_refusal(g, c1) is Some {
        (g, rejected(restrict_refusal(g, c1)->0))
    } else if restrict_refusal(g, c2) is Some {
        (g, rejected(restrict_refusal(g, c2)->0))
    } else {
        (g.insert(c1, g[c1].restricted()).insert(c2, g[c2].restricted()), accepted(None))
    }
}

/// What destroying the compound of the atom at `c` makes of the grid and
/// reports.
pub open spec fn destroy(g: Grid, c: Coord) -> (Grid, StatusModel) {
    if g[c].is_atom() {
        (sweep(razed(g, g[c].atom().parent)), accepted(None))
    } else {
        (g, rejected(msg_no_compound()))
    }
}

/// The grid after the upkeep at the end of a turn.
pub open spec fn end_turn(g: Grid) -> Grid {
    sweep(aged(g))
}

/// A new root keeps a sound grid sound.
pub proof fn lemma_root_placed_wf(g: Grid, c: Coord, play: Play, color: Color)
    requires
        grid_wf(g),
        in_grid(c),
        g[c].cell is Empty,
    ensures
        grid_wf(root_placed(g, c, play, color)),
{
    let h = root_placed(g, c, play, color);
    assert forall|z: Coord| in_grid(z) && (#[trigger] h[z]).zone_target() is Some implies zone_ok(
        h,
        z,
        h[z].zone_target()->0,
    ) by {
        assert(h[z] == g[z]);
        let t = g[z].zone_target()->0;
        assert(zone_ok(g, z, t));
        assert(h[t] == g[t]);
    }
    assert forall|z: Coord| in_grid(z) && (#[trigger] h[z]).is_atom() implies rooted(h, z) by {
        if z != c {
            assert(h[z] == g[z]);
            assert(rooted(g, z));
            let p = g[z].atom().parent;
            assert(h[p] == g[p]);
        }
    }
    assert forall|p: Coord| in_grid(p) && (#[trigger] h[p]).cell is Parent implies counted(
        h,
        p,
    ) by {
        if p == c {
            assert forall|z: Coord| in_grid(z) implies !#[trigger] member_of(g, c)(z) by {
                if g[z].is_atom() {
                    assert(rooted(g, z));
                }
            }
            lemma_tally_none(member_of(g, c), 36);
            assert forall|z: Coord| in_grid(z) && z != c implies #[trigger] member_of(g, c)(z)
                == member_of(h, c)(z) by {
                assert(h[z] == g[z]);
            }
            lemma_tally_one_more(member_of(g, c), member_of(h, c), c, 36);
            lemma_tally_bounds(idle_of(h, c), 36);
        } else {
            assert(h[p] == g[p]);
            assert(counted(g, p));
            assert forall|z: Coord| in_grid(z) implies #[trigger] member_of(g, p)(z) == member_of(
                h,
                p,
            )(z) by {
                if z != c {
                    assert(h[z] == g[z]);
                }
            }
            assert forall|z: Coord| in_grid(z) implies #[trigger] idle_of(g, p)(z) == idle_of(
                h,
                p,
            )(z) by {
                if z != c {
                    assert(h[z] == g[z]);
                }
            }
            lemma_tally_same(member_of(g, p), member_of(h, p), 36);
            lemma_tally_same(idle_of(g, p), idle_of(h, p), 36);
        }
    }
}

/// An attachment keeps a sound grid sound.
pub proof fn lemma_attached_wf(g: Grid, c: Coord, play: Play)
    requires
        grid_wf(g),
        in_grid(c),
        g[c].cell is Bond,
    ensures
        grid_wf(attached(g, c, play)),
{
    let h = attached(g, c, play);
    let t = target_of(g, c);
    let p = root_of(g, c);
    let partner = g[t].atom().bonds;
    assert(zone_ok(g, c, t));
    assert(rooted(g, t));
    assert(h[p] == joined_root(g, c, play));
    assert(h[c].is_atom() && h[c].atom().parent == p);
    assert(t != p ==> h[t] == g[t].bonded(play.bonds));
    assert forall|z: Coord| in_grid(z) && z != c && z != t && z != p implies #[trigger] h[z] == (
    if partner <= play.bonds && adjacent(t, z) {
        stripped(g[z])
    } else {
        g[z]
    }) by {}
    assert forall|z: Coord| in_grid(z) implies (#[trigger] h[z]).wf() by {
        assert(g[z].wf());
    }
    assert forall|z: Coord| in_grid(z) && (#[trigger] h[z]).zone_target() is Some implies zone_ok(
        h,
        z,
        h[z].zone_target()->0,
    ) by {
        let u = h[z].zone_target()->0;
        assert(h[z] == g[z]);
        assert(zone_ok(g, z, u));
        if u == t {
            assert(adjacent(t, z));
        }
    }
    assert forall|z: Coord| in_grid(z) && (#[trigger] h[z]).is_atom() implies rooted(h, z) by {
        if z != c {
            assert(g[z].is_atom());
            assert(rooted(g, z));
            let q = g[z].atom().parent;
            assert(h[z].atom().parent == q);
            assert(g[q].is_atom());
            assert(rooted(g, q));
        }
    }
    lemma_attached_counted(g, c, play);
}

/// What an attachment leaves on the tiles that hold atoms.
proof fn lemma_attached_atoms(g: Grid, c: Coord, play: Play)
    requires
        grid_wf(g),
        in_grid(c),
        g[c].cell is Bond,
    ensures
        ({
            let h = attached(g, c, play);
            let t = target_of(g, c);
            let p = root_of(g, c);
            &&& in_grid(t) && in_grid(p) && t != c && p != c
            &&& g[t].is_atom() && g[t].atom().parent == p && g[t].atom().bonds != 0
            &&& g[p].cell is Parent && g[p].atom().parent == p
            &&& counted(g, p)
            &&& h[p] == joined_root(g, c, play)
            &&& h[c].is_atom() && h[c].atom().parent == p
            &&& h[c].atom().bonds == saturate(play.bonds, g[t].atom().bonds)
            &&& h[t].is_atom() && h[t].atom().parent == p
            &&& h[t].atom().bonds == saturate(g[t].atom().bonds, play.bonds)
            &&& forall|z: Coord|
                in_grid(z) && z != c && z != t && z != p ==> ((#[trigger] g[z]).is_atom() ==> h[z]
                    == g[z]) && ((#[trigger] h[z]).is_atom() ==> g[z].is_atom())
            &&& p != t ==> h[p].atom() == g[p].atom()
        }),
{
    let t = target_of(g, c);
    assert(zone_ok(g, c, t));
    assert(rooted(g, t));
}

/// An attachment keeps the counts of the compounds right.
proof fn lemma_attached_counted(g: Grid, c: Coord, play: Play)
    requires
        grid_wf(g),
        in_grid(c),
        g[c].cell is Bond,
    ensures
        forall|q: Coord|
            in_grid(q) && (#[trigger] attached(g, c, play)[q]).cell is Parent ==> counted(
                attached(g, c, play),
                q,
            ),
{
    let h = attached(g, c, play);
    let t = target_of(g, c);
    let p = root_of(g, c);
    let partner = g[t].atom().bonds;
    lemma_attached_atoms(g, c, play);
    assert forall|q: Coord| in_grid(q) && (#[trigger] h[q]).cell is Parent implies counted(
        h,
        q,
    ) by {
        if q == p {
            lemma_counts_small(g, p);
            assert forall|z: Coord| in_grid(z) && z != c implies #[trigger] member_of(g, p)(z)
                == member_of(h, p)(z) by {
                if z != t && z != p {
                    assert(g[z].is_atom() ==> h[z] == g[z]);
                    assert(h[z].is_atom() ==> g[z].is_atom());
                }
            }
            lemma_tally_one_more(member_of(g, p), member_of(h, p), c, 36);
            let f0 = idle_of(g, p);
            let f2 = idle_of(h, p);
            assert forall|z: Coord| in_grid(z) && z != c && z != t implies #[trigger] f0(z) == f2(
                z,
            ) by {
                if z != p {
                    assert(g[z].is_atom() ==> h[z] == g[z]);
                    assert(h[z].is_atom() ==> g[z].is_atom());
                }
            }
            assert(!f0(c) && !f0(t));
            if play.bonds < partner {
                assert(f2(c) && !f2(t));
                lemma_tally_one_more(f0, f2, c, 36);
            } else if play.bonds > partner {
                assert(!f2(c) && f2(t));
                lemma_tally_one_more(f0, f2, t, 36);
            } else {
                let f1 = |z: Coord| f0(z) || z == c;
                assert(f2(c) && f2(t));
                lemma_tally_one_more(f0, f1, c, 36);
                lemma_tally_one_more(f1, f2, t, 36);
            }
        } else {
            assert(q != c && q != t);
            assert(g[q].is_atom());
            assert(h[q] == g[q]);
            assert(counted(g, q));
            assert(rooted(g, q));
            assert forall|z: Coord| in_grid(z) implies #[trigger] member_of(g, q)(z) == member_of(
                h,
                q,
            )(z) by {
                if z != c && z != t && z != p {
                    assert(g[z].is_atom() ==> h[z] == g[z]);
                    assert(h[z].is_atom() ==> g[z].is_atom());
                }
            }
            assert forall|z: Coord| in_grid(z) implies #[trigger] idle_of(g, q)(z) == idle_of(
                h,
                q,
            )(z) by {
                if z != c && z != t && z != p {
                    assert(g[z].is_atom() ==> h[z] == g[z]);
                    assert(h[z].is_atom() ==> g[z].is_atom());
                }
            }
            lemma_tally_same(member_of(g, q), member_of(h, q), 36);
            lemma_tally_same(idle_of(g, q), idle_of(h, q), 36);
        }
    }
}

/// Removing a compound keeps a sound grid sound.
pub proof fn lemma_razed_wf(g: Grid, root: Coord)
    requires
        grid_wf(g),
    ensures
        grid_wf(razed(g, root)),
{
    let h = razed(g, root);
    assert forall|z: Coord| in_grid(z) implies (#[trigger] h[z]).wf() by {
        assert(g[z].wf());
    }
    assert forall|z: Coord| in_grid(z) && (#[trigger] h[z]).zone_target() is Some implies zone_ok(
        h,
        z,
        h[z].zone_target()->0,
    ) by {
        let u = h[z].zone_target()->0;
        assert(h[z] == g[z]);
        assert(zone_ok(g, z, u));
        assert(!member(g, root, u));
        assert(h[u] == g[u]);
    }
    assert forall|z: Coord| in_grid(z) && (#[trigger] h[z]).is_atom() implies rooted(h, z) by {
        assert(h[z] == g[z]);
        assert(rooted(g, z));
        let q = g[z].atom().parent;
        assert(!member(g, root, q));
        assert(h[q] == g[q]);
    }
    assert forall|q: Coord| in_grid(q) && (#[trigger] h[q]).cell is Parent implies counted(
        h,
        q,
    ) by {
        assert(h[q] == g[q]);
        assert(rooted(g, q));
        assert(counted(g, q));
        assert forall|z: Coord| in_grid(z) implies #[trigger] member_of(g, q)(z) == member_of(
            h,
            q,
        )(z) by {
            assert(h[z].is_atom() ==> h[z] == g[z]);
        }
        assert forall|z: Coord| in_grid(z) implies #[trigger] idle_of(g, q)(z) == idle_of(h, q)(
            z,
        ) by {
            assert(h[z].is_atom() ==> h[z] == g[z]);
        }
        lemma_tally_same(member_of(g, q), member_of(h, q), 36);
        lemma_tally_same(idle_of(g, q), idle_of(h, q), 36);
    }
}

/// A turn of upkeep on the restrictions keeps a sound grid sound.
pub proof fn lemma_aged_wf(g: Grid)
    requires
        grid_wf(g),
    ensures
        grid_wf(aged(g)),
{
    let h = aged(g);
    assert forall|z: Coord| in_grid(z) implies (#[trigger] h[z]).wf() by {
        assert(g[z].wf());
    }
    assert forall|z: Coord| in_grid(z) && (#[trigger] h[z]).zone_target() is Some implies zone_ok(
        h,
        z,
        h[z].zone_target()->0,
    ) by {
        let u = h[z].zone_target()->0;
        assert(g[z].wf());
        assert(g[z].zone_target() == Some(u));
        assert(zone_ok(g, z, u));
        assert(h[u] == g[u]);
    }
    assert forall|z: Coord| in_grid(z) && (#[trigger] h[z]).is_atom() implies rooted(h, z) by {
        assert(h[z] == g[z]);
        assert(rooted(g, z));
        let q = g[z].atom().parent;
        assert(h[q] == g[q]);
    }
    assert(same_atoms(g, h)) by {
        assert forall|z: Coord| in_grid(z) implies ((#[trigger] g[z]).is_atom() ==> h[z] == g[z])
            && ((#[trigger] h[z]).is_atom() ==> g[z].is_atom()) by {
            assert(g[z].wf());
        }
    }
    lemma_counted_same_atoms(g, h);
}

/// A restriction keeps a sound grid sound.
pub proof fn lemma_restrict_wf(g: Grid, c1: Coord, c2: Coord)
    requires
        grid_wf(g),
        in_grid(c1),
        in_grid(c2),
    ensures
        grid_wf(restrict(g, c1, c2).0),
{
    let h = restrict(g, c1, c2).0;
    if restrict_refusal(g, c1) is None && restrict_refusal(g, c2) is None {
        assert forall|z: Coord| in_grid(z) implies (#[trigger] h[z]).wf() by {
            assert(g[z].wf());
        }
        assert forall|z: Coord|
            in_grid(z) && (#[trigger] h[z]).zone_target() is Some implies zone_ok(
            h,
            z,
            h[z].zone_target()->0,
        ) by {
            let u = h[z].zone_target()->0;
            assert(g[z].zone_target() == Some(u));
            assert(zone_ok(g, z, u));
            assert(h[u] == g[u]);
        }
        assert forall|z: Coord| in_grid(z) && (#[trigger] h[z]).is_atom() implies rooted(
            h,
            z,
        ) by {
            assert(h[z] == g[z]);
            assert(rooted(g, z));
            let q = g[z].atom().parent;
            assert(h[q] == g[q]);
        }
        assert(same_atoms(g, h));
        lemma_counted_same_atoms(g, h);
    }
}

} // verus!
