//! What holds of the board whatever is played on it.

use crate::game_board::board_tile::{AtomData, CellModel, Color, Coord, TileModel};
use crate::game_board::census::{lemma_tally_all, lemma_tally_le};
use crate::game_board::grid::{
    Grid, aged, before, claim, counted, down_of, empty_grid, glyph_from_above, glyph_from_below,
    glyph_from_left, glyph_from_right, grid_wf, idle_of, in_grid, is_source, left_of,
    lemma_swept_atoms, lemma_swept_target, member, member_of, offer, outranks, razed, right_of,
    rooted, same_atoms, sweep, swept_tile, up_of, zone_ok,
};
use crate::game_board::rules::{
    BoardModel, Play, accepted, attach, attached, destroy, end_turn, join_in_range, joined_root,
    lemma_aged_wf, lemma_razed_wf, metal_refusal, msg_metal_mismatch, neutral_made, rejected,
    restrict,
    restrict_refusal, root_of, root_placed, target_of,
};
use vstd::prelude::*;

verus! {

/// One atom joining a compound, as the root counts it.
pub struct Join {
    pub neutral_created: u8,
    pub atomic_number: u16,
    pub bonds_created: u16,
    pub metal: Option<Seq<char>>,
}

/// A root after the atoms of `joins` have joined its compound in turn.
pub open spec fn grown(root: TileModel, joins: Seq<Join>) -> TileModel
    decreases joins.len(),
{
    if joins.len() == 0 {
        root
    } else {
        let last = joins.last();
        grown(root, joins.drop_last()).joined(
            last.neutral_created,
            last.atomic_number,
            last.bonds_created,
            last.metal,
        )
    }
}

/// Whether the totals had room for each of `joins` when it came.
pub open spec fn all_fit(root: TileModel, joins: Seq<Join>) -> bool
    decreases joins.len(),
{
    joins.len() > 0 ==> all_fit(root, joins.drop_last()) && grown(
        root,
        joins.drop_last(),
    ).join_fits(joins.last().neutral_created, joins.last().atomic_number)
}

/// The sum of the atomic numbers of `joins`.
pub open spec fn numbers_sum(joins: Seq<Join>) -> int
    decreases joins.len(),
{
    if joins.len() == 0 {
        0
    } else {
        numbers_sum(joins.drop_last()) + joins.last().atomic_number
    }
}

/// The strongest bond among `joins`, 0 when there is none.
pub open spec fn strongest_bond(joins: Seq<Join>) -> int
    decreases joins.len(),
{
    if joins.len() == 0 {
        0
    } else if joins.last().bonds_created > strongest_bond(joins.drop_last()) {
        joins.last().bonds_created as int
    } else {
        strongest_bond(joins.drop_last())
    }
}

/// The totals of a compound are exact: the atomic sum is the sum of the
/// atomic numbers of the root and of every atom that joined, the count of
/// atoms is their number, the largest bond is the strongest bond that was
/// formed, and the score is the product of the sum and that bond.
pub proof fn lemma_totals_exact(
    symbol: Seq<char>,
    atom: AtomData,
    metal: Option<Seq<char>>,
    atomic_number: u16,
    joins: Seq<Join>,
)
    requires
        all_fit(TileModel::parent_zone(symbol, atom, metal, atomic_number), joins),
    ensures
        ({
            let root = grown(TileModel::parent_zone(symbol, atom, metal, atomic_number), joins);
            &&& root.cell is Parent
            &&& root.cell->totals.atomic_sum == atomic_number + numbers_sum(joins)
            &&& root.cell->totals.atoms == 1 + joins.len()
            &&& root.cell->totals.largest_bond == strongest_bond(joins)
            &&& root.score() == (atomic_number + numbers_sum(joins)) * strongest_bond(joins)
        }),
    decreases joins.len(),
{
    if joins.len() > 0 {
        lemma_totals_exact(symbol, atom, metal, atomic_number, joins.drop_last());
    }
}

/// On the board the totals grow as they do on the root alone: an atom that
/// joins a compound is counted by the compound's root exactly once, with
/// its atomic number, the strength of its bond, and the atoms that the
/// bond left neutral.
pub proof fn lemma_attach_counts_once(b: BoardModel, c: Coord, play: Play, pick: int)
    requires
        grid_wf(b.tiles),
        in_grid(c),
        b.tiles[c].cell is Bond,
        metal_refusal(b.tiles, c, play) is None,
    ensures
        ({
            let g = b.tiles;
            let p = root_of(g, c);
            let partner = g[target_of(g, c)].atom().bonds;
            attach(b, c, play, pick).0.tiles[p].cell->totals == g[p].joined(
                neutral_made(play.bonds, partner),
                play.atomic_number,
                if play.bonds <= partner {
                    play.bonds
                } else {
                    partner
                },
                None,
            ).cell->totals
        }),
{
    let g = b.tiles;
    let t = target_of(g, c);
    assert(zone_ok(g, c, t));
    assert(rooted(g, t));
    lemma_swept_atoms(attached(g, c, play), root_of(g, c), (6, 0));
}

/// An attachment reports points at the very call that leaves as many
/// neutral atoms in the compound as it has atoms, and at no other; the
/// points are the compound's atomic sum times its largest bond.
pub proof fn lemma_score_on_completion(b: BoardModel, c: Coord, play: Play, pick: int)
    requires
        b.tiles[c].cell is Bond,
        metal_refusal(b.tiles, c, play) is None,
        join_in_range(b.tiles, c, play),
    ensures
        attach(b, c, play, pick).1.points is Some <==> joined_root(b.tiles, c, play).complete(),
        attach(b, c, play, pick).1.points matches Some(points) ==> points == joined_root(
            b.tiles,
            c,
            play,
        ).cell->totals.atomic_sum * joined_root(b.tiles, c, play).cell->totals.largest_bond,
{
}

/// Only an attachment onto a bond zone ever reports points.
pub proof fn lemma_no_score_elsewhere(b: BoardModel, c: Coord, play: Play, pick: int)
    requires
        !(b.tiles[c].cell is Bond),
    ensures
        attach(b, c, play, pick).1.points is None,
{
}

/// A complete compound is closed: none of its atoms has a bond left to
/// form, and no zone, shown or remembered, points at one of them.
pub proof fn lemma_complete_is_closed(g: Grid, p: Coord)
    requires
        grid_wf(g),
        in_grid(p),
        g[p].cell is Parent,
        g[p].complete(),
    ensures
        forall|c: Coord| member(g, p, c) ==> (#[trigger] g[c]).atom().bonds == 0,
        forall|z: Coord|
            in_grid(z) && (#[trigger] g[z]).zone_target() is Some ==> !member(
                g,
                p,
                g[z].zone_target()->0,
            ),
{
    assert(counted(g, p));
    lemma_tally_le(idle_of(g, p), member_of(g, p), 36);
    lemma_tally_all(idle_of(g, p), member_of(g, p), 36);
    assert forall|c: Coord| member(g, p, c) implies (#[trigger] g[c]).atom().bonds == 0 by {
        assert(member_of(g, p)(c));
        assert(idle_of(g, p)(c));
    }
    assert forall|z: Coord| in_grid(z) && (#[trigger] g[z]).zone_target() is Some implies !member(
        g,
        p,
        g[z].zone_target()->0,
    ) by {
        let t = g[z].zone_target()->0;
        assert(zone_ok(g, z, t));
        if member(g, p, t) {
            assert(g[t].atom().bonds == 0);
        }
    }
}

/// No bond zone leads into a complete compound.
pub proof fn lemma_no_zone_into_complete(g: Grid, c: Coord)
    requires
        grid_wf(g),
        in_grid(c),
        g[c].cell is Bond,
    ensures
        !g[root_of(g, c)].complete(),
{
    let t = target_of(g, c);
    let p = root_of(g, c);
    assert(zone_ok(g, c, t));
    assert(rooted(g, t));
    if g[p].complete() {
        lemma_complete_is_closed(g, p);
        assert(member(g, p, t));
    }
}

/// The points of a compound are reported once: whatever is played once the
/// compound is complete, its root stays as it is, and points that the play
/// reports are those of another compound.
pub proof fn lemma_score_only_once(b: BoardModel, p: Coord, c: Coord, play: Play, pick: int)
    requires
        grid_wf(b.tiles),
        in_grid(p),
        in_grid(c),
        b.tiles[p].cell is Parent,
        b.tiles[p].complete(),
    ensures
        attach(b, c, play, pick).0.tiles[p] == b.tiles[p],
        attach(b, c, play, pick).1.points is Some ==> b.tiles[c].cell is Bond && root_of(
            b.tiles,
            c,
        ) != p,
{
    let g = b.tiles;
    if g[c].cell is Empty {
        lemma_swept_atoms(root_placed(g, c, play, b.palette[pick]), p, (6, 0));
    } else if g[c].cell is Bond {
        lemma_no_zone_into_complete(g, c);
        let t = target_of(g, c);
        assert(zone_ok(g, c, t));
        assert(rooted(g, t));
        lemma_complete_is_closed(g, p);
        assert(rooted(g, p));
        assert(member(g, p, p));
        assert(t != p);
        assert(attached(g, c, play)[p] == g[p]);
        lemma_swept_atoms(attached(g, c, play), p, (6, 0));
    }
}

/// Whether the zone on `tile` is safe from the atom at `a`: the tile holds
/// an atom, or its zone belongs to an atom that `a` does not outrank.
pub open spec fn settled_against(tile: TileModel, g: Grid, a: Coord) -> bool {
    tile.is_atom() || (tile.zone_target() matches Some(owner) && !outranks(g, a, owner))
}

/// A claim leaves the tile safe from the claimant, and from every atom it
/// was safe from.
proof fn lemma_claim_settles(tile: TileModel, g: Grid, a: Coord, b: Coord, glyph: Seq<char>)
    ensures
        settled_against(claim(tile, g, a, glyph), g, a),
        settled_against(tile, g, b) ==> settled_against(claim(tile, g, a, glyph), g, b),
        settled_against(tile, g, a) ==> claim(tile, g, a, glyph) == tile,
{
}

/// The claim of a neighbour that comes before `pos`, if there is one that
/// can still take a bond, leaves the tile safe from it, and from every atom
/// it was safe from.
proof fn lemma_offer_settles(
    tile: TileModel,
    g: Grid,
    n: Option<Coord>,
    b: Coord,
    pos: Coord,
    glyph: Seq<char>,
)
    ensures
        n is Some && before(n->0, pos) && is_source(g, n->0) ==> settled_against(
            offer(tile, g, n, pos, glyph),
            g,
            n->0,
        ),
        settled_against(tile, g, b) ==> settled_against(offer(tile, g, n, pos, glyph), g, b),
        (n is Some && is_source(g, n->0) ==> settled_against(tile, g, n->0)) ==> offer(
            tile,
            g,
            n,
            pos,
            glyph,
        ) == tile,
{
    if n is Some {
        lemma_claim_settles(tile, g, n->0, b, glyph);
    }
}

/// After a sweep no neighbour that can still take a bond outranks the
/// owner of a zone: the zone has gone to the atom that was placed first.
pub proof fn lemma_swept_settled(g: Grid, z: Coord, n: Option<Coord>)
    requires
        in_grid(z),
        n == left_of(z) || n == up_of(z) || n == down_of(z) || n == right_of(z),
        n is Some && is_source(g, n->0),
    ensures
        settled_against(swept_tile(g, z), g, n->0),
{
    let pos = (6usize, 0usize);
    let a = n->0;
    let t1 = offer(g[z], g, left_of(z), pos, glyph_from_left());
    let t2 = offer(t1, g, up_of(z), pos, glyph_from_above());
    let t3 = offer(t2, g, down_of(z), pos, glyph_from_below());
    let t4 = offer(t3, g, right_of(z), pos, glyph_from_right());
    lemma_offer_settles(g[z], g, left_of(z), a, pos, glyph_from_left());
    lemma_offer_settles(t1, g, up_of(z), a, pos, glyph_from_above());
    lemma_offer_settles(t2, g, down_of(z), a, pos, glyph_from_below());
    lemma_offer_settles(t3, g, right_of(z), a, pos, glyph_from_right());
}

/// One sweep is enough: a second sweep changes nothing.
pub proof fn lemma_sweep_settles(g: Grid)
    requires
        grid_wf(g),
    ensures
        sweep(sweep(g)) == sweep(g),
{
    let s = sweep(g);
    let pos = (6usize, 0usize);
    assert forall|n: Coord| in_grid(n) implies #[trigger] s[n].is_atom() == g[n].is_atom() && (
    g[n].is_atom() ==> s[n] == g[n]) by {
        lemma_swept_atoms(g, n, pos);
    }
    assert forall|z: Coord| in_grid(z) implies swept_tile(s, z) == #[trigger] s[z] by {
        let tile = s[z];
        lemma_swept_target(g, z, pos);
        if tile.zone_target() is Some {
            assert(zone_ok(g, z, tile.zone_target()->0));
        }
        assert forall|n: Option<Coord>|
            (n == left_of(z) || n == up_of(z) || n == down_of(z) || n == right_of(z)) && n
                is Some && is_source(s, n->0) implies settled_against(tile, s, n->0) by {
            let a = n->0;
            assert(is_source(g, a));
            lemma_swept_settled(g, z, n);
            if !tile.is_atom() {
                let owner = tile.zone_target()->0;
                assert(s[owner] == g[owner]);
                assert(s[a] == g[a]);
            }
        }
        lemma_offer_settles(tile, s, left_of(z), z, pos, glyph_from_left());
        lemma_offer_settles(tile, s, up_of(z), z, pos, glyph_from_above());
        lemma_offer_settles(tile, s, down_of(z), z, pos, glyph_from_below());
        lemma_offer_settles(tile, s, right_of(z), z, pos, glyph_from_right());
    }
    assert(sweep(s) =~= s);
}

/// A metal is never accepted on a zone of an atom that is itself a metal:
/// the play is rejected and the board stays as it was.
pub proof fn lemma_metal_never_joins_metal(b: BoardModel, c: Coord, play: Play, pick: int)
    requires
        b.tiles[c].cell is Bond,
        play.is_metal,
        b.tiles[target_of(b.tiles, c)].atom().is_metal,
    ensures
        attach(b, c, play, pick).1.error is Some,
        attach(b, c, play, pick).0 == b,
{
}

/// A metal is never accepted into a compound that holds another metal: the
/// play is rejected for that reason and the board stays as it was.
pub proof fn lemma_one_metal_per_compound(b: BoardModel, c: Coord, play: Play, pick: int)
    requires
        b.tiles[c].cell is Bond,
        play.is_metal,
        b.tiles[root_of(b.tiles, c)].cell->metal matches Some(tag) && tag != play.symbol,
    ensures
        attach(b, c, play, pick).1 == rejected(msg_metal_mismatch()),
        attach(b, c, play, pick).0 == b,
{
}

/// An atom that is no metal is never turned away from a bond zone.
pub proof fn lemma_non_metal_always_joins(b: BoardModel, c: Coord, play: Play, pick: int)
    requires
        b.tiles[c].cell is Bond,
        !play.is_metal,
    ensures
        attach(b, c, play, pick).1.error is None,
{
}

/// A restriction is all or nothing: when either tile cannot be restricted
/// the call is rejected and no tile changes; otherwise both are restricted
/// for two turns.
pub proof fn lemma_restrict_atomic(g: Grid, c1: Coord, c2: Coord)
    requires
        in_grid(c1),
        in_grid(c2),
        forall|c: Coord| g.dom().contains(c) <==> in_grid(c),
    ensures
        restrict_refusal(g, c1) is Some || restrict_refusal(g, c2) is Some ==> restrict(
            g,
            c1,
            c2,
        ).0 == g && restrict(g, c1, c2).1.error is Some,
        restrict_refusal(g, c1) is None && restrict_refusal(g, c2) is None ==> {
            let h = restrict(g, c1, c2).0;
            &&& restrict(g, c1, c2).1 == accepted(None)
            &&& h[c1] == g[c1].restricted()
            &&& h[c2] == g[c2].restricted()
            &&& forall|z: Coord| z != c1 && z != c2 ==> h[z] == g[z]
        },
{
}

/// On the tile alone: a restriction is still in force after one turn of
/// upkeep, and after two the tile is the zone it was, or empty if it was
/// none.
pub proof fn lemma_restriction_two_turns(tile: TileModel)
    requires
        tile.cell is Empty || tile.cell is Bond,
    ensures
        tile.restricted().cell is Restricted,
        tile.restricted().decremented().cell is Restricted,
        tile.restricted().decremented().decremented().cell == tile.cell,
{
}

/// On the board: a tile restricted for two turns is still restricted after
/// one end of turn and no longer after two. It is then the bond zone that
/// it remembered after the first, and empty if it remembered none.
pub proof fn lemma_restriction_ends(g: Grid, c: Coord)
    requires
        grid_wf(g),
        in_grid(c),
        g[c].cell matches CellModel::Restricted { counter, .. } && counter == 2,
    ensures
        end_turn(g)[c].cell matches CellModel::Restricted { counter, .. } && counter == 1,
        end_turn(end_turn(g))[c].cell == (match end_turn(g)[c].zone_target() {
            Some(target) => CellModel::Bond { target },
            None => CellModel::Empty,
        }),
{
    let g1 = aged(g);
    let g2 = end_turn(g);
    let g3 = aged(g2);
    lemma_swept_atoms(g1, c, (6, 0));
    lemma_swept_atoms(g3, c, (6, 0));
    lemma_aged_wf(g);
    lemma_swept_target(g1, c, (6, 0));
    assert forall|n: Coord| in_grid(n) implies #[trigger] g3[n].is_atom() == g1[n].is_atom() && (
    g1[n].is_atom() ==> g3[n] == g1[n]) by {
        lemma_swept_atoms(g1, n, (6, 0));
    }
    if g2[c].zone_target() is Some {
        let t = g2[c].zone_target()->0;
        assert(g3[t] == g1[t]);
    }
}

/// Destroying a compound clears every atom of it, leaves no zone, shown or
/// remembered, that points at a tile of it, and leaves every other atom as
/// it was.
pub proof fn lemma_destroy_clears(g: Grid, c: Coord)
    requires
        grid_wf(g),
        in_grid(c),
        g[c].is_atom(),
    ensures
        ({
            let root = g[c].atom().parent;
            let h = destroy(g, c).0;
            &&& forall|z: Coord| member(g, root, z) ==> #[trigger] razed(g, root)[z]
                == TileModel::empty()
            &&& forall|z: Coord| member(g, root, z) ==> !(#[trigger] h[z]).is_atom()
            &&& forall|z: Coord|
                in_grid(z) && (#[trigger] h[z]).zone_target() is Some ==> !member(
                    g,
                    root,
                    h[z].zone_target()->0,
                )
            &&& forall|z: Coord|
                in_grid(z) && g[z].is_atom() && !member(g, root, z) ==> #[trigger] h[z] == g[z]
        }),
{
    let root = g[c].atom().parent;
    let r = razed(g, root);
    let h = destroy(g, c).0;
    lemma_razed_wf(g, root);
    assert forall|z: Coord| member(g, root, z) implies !(#[trigger] h[z]).is_atom() by {
        lemma_swept_atoms(r, z, (6, 0));
    }
    assert forall|z: Coord| in_grid(z) && (#[trigger] h[z]).zone_target() is Some implies !member(
        g,
        root,
        h[z].zone_target()->0,
    ) by {
        assert(r[z].zone_target() is Some ==> zone_ok(r, z, r[z].zone_target()->0));
        lemma_swept_target(r, z, (6, 0));
    }
    assert forall|z: Coord|
        in_grid(z) && g[z].is_atom() && !member(g, root, z) implies #[trigger] h[z] == g[z] by {
        lemma_swept_atoms(r, z, (6, 0));
    }
}

/// Every atom on the grid was placed before the turn `turn`, and no two
/// atoms were placed on the same turn.
#[verifier::opaque]
pub open spec fn ranked(g: Grid, turn: int) -> bool {
    &&& forall|c: Coord|
        in_grid(c) && (#[trigger] g[c]).is_atom() ==> g[c].atom().presedence < turn
    &&& forall|c: Coord, d: Coord|
        in_grid(c) && in_grid(d) && c != d && (#[trigger] g[c]).is_atom() && (#[trigger] g[d]).is_atom()
            ==> g[c].atom().presedence != g[d].atom().presedence
}

/// Grids that hold the same atoms rank them alike.
pub proof fn lemma_same_atoms_ranked(g: Grid, h: Grid, turn: int)
    requires
        same_atoms(g, h),
        ranked(g, turn),
    ensures
        ranked(h, turn),
{
    reveal(ranked);
    assert forall|c: Coord| in_grid(c) && (#[trigger] h[c]).is_atom() implies h[c].atom().presedence
        < turn by {
        assert(g[c].is_atom());
    }
    assert forall|c: Coord, d: Coord|
        in_grid(c) && in_grid(d) && c != d && (#[trigger] h[c]).is_atom() && (#[trigger] h[d]).is_atom()
        implies h[c].atom().presedence != h[d].atom().presedence by {
        assert(g[c].is_atom() && g[d].is_atom());
    }
}

/// A board without atoms has its precedences apart, and what holds of the
/// atoms placed before a turn holds of those placed before a later one.
pub proof fn lemma_ranked_grows(g: Grid, turn: int, later: int)
    requires
        turn <= later,
    ensures
        ranked(empty_grid(), turn),
        ranked(g, turn) ==> ranked(g, later),
{
    reveal(ranked);
}

/// A sweep moves no atom.
pub proof fn lemma_sweep_same_atoms(g: Grid)
    ensures
        same_atoms(g, sweep(g)),
{
    assert forall|c: Coord| in_grid(c) implies ((#[trigger] g[c]).is_atom() ==> sweep(g)[c] == g[c])
        && ((#[trigger] sweep(g)[c]).is_atom() ==> g[c].is_atom()) by {
        lemma_swept_atoms(g, c, (6, 0));
    }
}

/// The precedences stay apart: where every atom was placed before the turn
/// of the play and no two on the same turn, the same holds after the play
/// of the turn after it.
pub proof fn lemma_attach_ranked(b: BoardModel, c: Coord, play: Play, pick: int)
    requires
        grid_wf(b.tiles),
        in_grid(c),
        ranked(b.tiles, play.presedence as int),
    ensures
        ranked(attach(b, c, play, pick).0.tiles, play.presedence + 1),
{
    reveal(ranked);
    let g = b.tiles;
    let turn = play.presedence + 1;
    if g[c].cell is Empty {
        let h = root_placed(g, c, play, b.palette[pick]);
        assert(ranked(h, turn)) by {
            assert forall|z: Coord| in_grid(z) && (#[trigger] h[z]).is_atom() implies h[z].atom().presedence
                < turn by {
                if z != c {
                    assert(g[z].is_atom());
                }
            }
            assert forall|z: Coord, d: Coord|
                in_grid(z) && in_grid(d) && z != d && (#[trigger] h[z]).is_atom() && (
                #[trigger] h[d]).is_atom() implies h[z].atom().presedence
                != h[d].atom().presedence by {
                if z != c {
                    assert(g[z].is_atom());
                }
                if d != c {
                    assert(g[d].is_atom());
                }
            }
        }
        lemma_sweep_same_atoms(h);
        lemma_same_atoms_ranked(h, sweep(h), turn);
    } else if g[c].cell is Bond && metal_refusal(g, c, play) is None {
        let h = attached(g, c, play);
        let t = target_of(g, c);
        let p = root_of(g, c);
        assert(zone_ok(g, c, t));
        assert(rooted(g, t));
        assert forall|z: Coord| in_grid(z) && z != c implies (#[trigger] h[z]).is_atom()
            == g[z].is_atom() && (g[z].is_atom() ==> h[z].atom().presedence
            == g[z].atom().presedence) by {}
        assert(ranked(h, turn)) by {
            assert forall|z: Coord| in_grid(z) && (#[trigger] h[z]).is_atom() implies h[z].atom().presedence
                < turn by {
                if z != c {
                    assert(g[z].is_atom());
                }
            }
            assert forall|z: Coord, d: Coord|
                in_grid(z) && in_grid(d) && z != d && (#[trigger] h[z]).is_atom() && (
                #[trigger] h[d]).is_atom() implies h[z].atom().presedence
                != h[d].atom().presedence by {
                if z != c {
                    assert(g[z].is_atom());
                }
                if d != c {
                    assert(g[d].is_atom());
                }
            }
        }
        lemma_sweep_same_atoms(h);
        lemma_same_atoms_ranked(h, sweep(h), turn);
    } else {
        assert(attach(b, c, play, pick).0 == b);
    }
}

/// The end of a turn, a restriction and the removal of a compound place no
/// atom: the precedences stay apart.
pub proof fn lemma_upkeep_ranked(g: Grid, c1: Coord, c2: Coord, turn: int)
    requires
        grid_wf(g),
        in_grid(c1),
        in_grid(c2),
        ranked(g, turn),
    ensures
        ranked(end_turn(g), turn),
        ranked(restrict(g, c1, c2).0, turn),
        ranked(destroy(g, c1).0, turn),
{
    reveal(ranked);
    assert(same_atoms(g, aged(g))) by {
        assert forall|z: Coord| in_grid(z) implies ((#[trigger] g[z]).is_atom() ==> aged(g)[z]
            == g[z]) && ((#[trigger] aged(g)[z]).is_atom() ==> g[z].is_atom()) by {
            assert(g[z].wf());
        }
    }
    lemma_same_atoms_ranked(g, aged(g), turn);
    lemma_sweep_same_atoms(aged(g));
    lemma_same_atoms_ranked(aged(g), end_turn(g), turn);
    assert(same_atoms(g, restrict(g, c1, c2).0));
    lemma_same_atoms_ranked(g, restrict(g, c1, c2).0, turn);
    if g[c1].is_atom() {
        let r = razed(g, g[c1].atom().parent);
        assert(ranked(r, turn)) by {
            assert forall|z: Coord| in_grid(z) && (#[trigger] r[z]).is_atom() implies r[z] == g[z] by {}
        }
        lemma_sweep_same_atoms(r);
        lemma_same_atoms_ranked(r, sweep(r), turn);
    }
}

/// After a sweep every tile beside an atom that can still take a bond
/// holds an atom or a zone, shown or remembered.
pub proof fn lemma_sweep_covers(g: Grid, z: Coord, n: Option<Coord>)
    requires
        in_grid(z),
        n == left_of(z) || n == up_of(z) || n == down_of(z) || n == right_of(z),
        n is Some && is_source(g, n->0),
    ensures
        sweep(g)[z].is_atom() || sweep(g)[z].zone_target() is Some,
{
    lemma_swept_settled(g, z, n);
}

/// Where the precedences are apart, a sweep gives a contested zone to the
/// neighbour that was placed first, whatever the order of the sweep: the
/// owner of the zone was placed before every other neighbour that can
/// still take a bond.
pub proof fn lemma_zone_goes_to_earliest(g: Grid, z: Coord, n: Option<Coord>, turn: int)
    requires
        grid_wf(g),
        ranked(g, turn),
        in_grid(z),
        n == left_of(z) || n == up_of(z) || n == down_of(z) || n == right_of(z),
        n is Some && is_source(g, n->0),
        sweep(g)[z].zone_target() is Some,
    ensures
        ({
            let owner = sweep(g)[z].zone_target()->0;
            owner == n->0 || g[owner].atom().presedence < g[n->0].atom().presedence
        }),
{
    reveal(ranked);
    lemma_swept_settled(g, z, n);
    lemma_swept_target(g, z, (6, 0));
    if g[z].zone_target() is Some {
        assert(zone_ok(g, z, g[z].zone_target()->0));
    }
    let owner = sweep(g)[z].zone_target()->0;
    assert(zone_ok(g, z, owner));
    assert(g[owner].is_atom() && g[n->0].is_atom());
}

/// The colours that come of taking the colours at `picks` out of `palette`
/// one after the other.
pub open spec fn drawn(palette: Seq<Color>, picks: Seq<int>) -> Seq<Color>
    decreases picks.len(),
{
    if picks.len() == 0 {
        Seq::empty()
    } else {
        seq![palette[picks[0]]] + drawn(palette.remove(picks[0]), picks.drop_first())
    }
}

/// Whether each of `picks` names a colour that is there when it is taken.
pub open spec fn picks_valid(palette: Seq<Color>, picks: Seq<int>) -> bool
    decreases picks.len(),
{
    picks.len() > 0 ==> 0 <= picks[0] < palette.len() && picks_valid(
        palette.remove(picks[0]),
        picks.drop_first(),
    )
}

/// Taking a colour out of a palette without repeats leaves one without
/// repeats, and without that colour.
pub proof fn lemma_remove_distinct(palette: Seq<Color>, pick: int)
    requires
        palette.no_duplicates(),
        0 <= pick < palette.len(),
    ensures
        palette.remove(pick).no_duplicates(),
        !palette.remove(pick).contains(palette[pick]),
        forall|color: Color| palette.remove(pick).contains(color) ==> palette.contains(color),
{
    let rest = palette.remove(pick);
    palette.remove_ensures(pick);
    assert forall|i: int, j: int| 0 <= i < rest.len() && 0 <= j < rest.len() && i != j implies rest[i]
        != rest[j] by {
        let oi = if i < pick { i } else { i + 1 };
        let oj = if j < pick { j } else { j + 1 };
        assert(rest[i] == palette[oi] && rest[j] == palette[oj]);
    }
    assert forall|i: int| 0 <= i < rest.len() implies rest[i] != palette[pick] by {
        let oi = if i < pick { i } else { i + 1 };
        assert(rest[i] == palette[oi]);
    }
    assert forall|color: Color| rest.contains(color) implies palette.contains(color) by {
        let i = choose|i: int| 0 <= i < rest.len() && rest[i] == color;
        let oi = if i < pick { i } else { i + 1 };
        assert(palette[oi] == color);
    }
}

/// No colour is handed out twice: whatever is drawn from a palette without
/// repeats, in whatever order, no two draws give the same colour.
pub proof fn lemma_colors_never_repeat(palette: Seq<Color>, picks: Seq<int>)
    requires
        palette.no_duplicates(),
        picks_valid(palette, picks),
    ensures
        drawn(palette, picks).len() == picks.len(),
        drawn(palette, picks).no_duplicates(),
        forall|color: Color| drawn(palette, picks).contains(color) ==> palette.contains(color),
    decreases picks.len(),
{
    if picks.len() > 0 {
        let rest = palette.remove(picks[0]);
        let later = drawn(rest, picks.drop_first());
        lemma_remove_distinct(palette, picks[0]);
        lemma_colors_never_repeat(rest, picks.drop_first());
        let all = drawn(palette, picks);
        assert(all == seq![palette[picks[0]]] + later);
        assert forall|i: int, j: int| 0 <= i < all.len() && 0 <= j < all.len() && i != j implies all[i]
            != all[j] by {
            if i > 0 {
                assert(later.contains(later[i - 1]));
            }
            if j > 0 {
                assert(later.contains(later[j - 1]));
            }
        }
        assert forall|color: Color| all.contains(color) implies palette.contains(color) by {
            let i = choose|i: int| 0 <= i < all.len() && all[i] == color;
            if i > 0 {
                assert(later.contains(later[i - 1]));
            }
        }
    }
}

} // verus!
