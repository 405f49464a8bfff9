//! The board: a six by six grid of tiles and the colours still to be
//! handed out, with the operations a turn is made of.

pub mod board_tile;
pub mod census;
pub mod color_picker;
pub mod frontier;
pub mod grid;
pub mod rules;

use crate::game_board::board_tile::{BoardTile, Coord, TileModel, TileState, tag_view};
use crate::game_board::color_picker::{ColorPicker, palette};
use crate::game_board::frontier::{
    aged_upto, lemma_claim_at, lemma_mid_sweep, lemma_stripped, lemma_sweep_step,
};
use crate::game_board::grid::{
    aged, before, claim, covered, down_of, empty_grid, glyph_from_above, glyph_from_below,
    glyph_from_right, grid_wf, in_grid, left_of, lemma_counts_small, lemma_covered_kept,
    lemma_sweep_covered, lemma_sweep_wf, razed, razed_upto, right_of, rooted, strip_around,
    stripped, sweep, swept_upto, up_of, zone_ok,
};
use crate::game_board::rules::{
    BoardModel, Play, StatusModel, attach, attach_fits, attached, destroy, end_turn, joined_root,
    lemma_aged_wf, lemma_attached_wf, lemma_razed_wf, lemma_restrict_wf, lemma_root_placed_wf,
    rejected, restrict, restrict_refusal, root_placed,
};
use vstd::prelude::*;

verus! {

/// What an operation reports: an error message when it was rejected, the
/// points when it completed a compound, neither when it was accepted
/// without a score.
pub struct BoardStatus {
    pub error_message: Option<String>,
    pub points: Option<u16>,
}

impl View for BoardStatus {
    type V = StatusModel;

    open spec fn view(&self) -> StatusModel {
        StatusModel { error: tag_view(self.error_message), points: self.points }
    }
}

/// The atom that a call of `Bond` plays.
pub open spec fn play_of(
    symbol: Seq<char>,
    bonds: u16,
    is_metal: bool,
    presedence: u8,
    atomic_number: u16,
) -> Play {
    Play { symbol, bonds, is_metal, presedence, atomic_number }
}

/// The grid of tiles and the colours that are left for new compounds.
pub struct GameBoard {
    tile_array: [[BoardTile; 6]; 6],
    color_picker: ColorPicker,
}

impl View for GameBoard {
    type V = BoardModel;

    closed spec fn view(&self) -> BoardModel {
        BoardModel {
            tiles: Map::new(
                |c: Coord| in_grid(c),
                |c: Coord| self.tile_array[c.0 as int][c.1 as int]@,
            ),
            palette: self.color_picker@,
        }
    }
}

fn same_tile(a: Coord, b: Coord) -> (same: bool)
    ensures
        same == (a == b),
{
    a.0 == b.0 && a.1 == b.1
}

fn reject(message: &str) -> (status: BoardStatus)
    ensures
        status@ == rejected(message@),
{
    BoardStatus { error_message: Some(message.to_owned()), points: None }
}

fn empty_row() -> (row: [BoardTile; 6])
    ensures
        forall|j: int| 0 <= j < 6 ==> (#[trigger] row[j])@ == TileModel::empty(),
{
    [
        BoardTile::default(),
        BoardTile::default(),
        BoardTile::default(),
        BoardTile::default(),
        BoardTile::default(),
        BoardTile::default(),
    ]
}

impl Default for GameBoard {
    fn default() -> (board: Self)
        ensures
            board.wf(),
            board@.tiles == empty_grid(),
            board@.palette == palette(),
    {
        let board = GameBoard {
            tile_array: [
                empty_row(),
                empty_row(),
                empty_row(),
                empty_row(),
                empty_row(),
                empty_row(),
            ],
            color_picker: ColorPicker::default(),
        };
        assert(board@.tiles =~= empty_grid());
        proof {
            lemma_covered_kept(empty_grid(), empty_grid());
        }
        board
    }
}

impl GameBoard {
    /// The picker counts its colours rightly and holds none twice.
    pub closed spec fn picker_wf(&self) -> bool {
        self.color_picker.wf()
    }

    /// What holds of a board between operations: the colours are in order,
    /// the grid is sound, and the frontier is whole.
    pub open spec fn wf(&self) -> bool {
        self.picker_wf() && grid_wf(self@.tiles) && covered(self@.tiles)
    }

    /// A well-formed board holds no colour twice.
    pub proof fn lemma_palette_distinct(&self)
        requires
            self.wf(),
        ensures
            self@.palette.no_duplicates(),
    {
        self.color_picker.lemma_distinct();
    }

    /// The tile at `coords`.
    pub fn PeekTile(&self, coords: Coord) -> (tile: &BoardTile)
        requires
            in_grid(coords),
        ensures
            tile@ == self@.tiles[coords],
    {
        &self.tile_array[coords.0][coords.1]
    }

    /// The tile at `coords`, to be changed.
    fn GetTile(&mut self, coords: Coord) -> (tile: &mut BoardTile)
        requires
            in_grid(coords),
        ensures
            tile@ == old(self)@.tiles[coords],
            final(self)@.tiles == old(self)@.tiles.insert(coords, final(tile)@),
            final(self).color_picker == old(self).color_picker,
    {
        let tile = &mut self.tile_array[coords.0][coords.1];
        assert(after_borrow(*self)@.tiles =~= old(self)@.tiles.insert(coords, final(tile)@));
        tile
    }

    /// The neighbour above `coords`, if the grid has one.
    pub fn GetUpTile(coords: Coord) -> (up: Option<Coord>)
        ensures
            up == up_of(coords),
    {
        if coords.1 == 0 {
            return None;
        }
        Some((coords.0, coords.1 - 1))
    }

    /// The neighbour below `coords`, if the grid has one.
    pub fn GetDownTile(coords: Coord) -> (down: Option<Coord>)
        requires
            coords.1 < usize::MAX,
        ensures
            down == down_of(coords),
    {
        if coords.1 == 5 {
            return None;
        }
        Some((coords.0, coords.1 + 1))
    }

    /// The neighbour to the left of `coords`, if the grid has one.
    pub fn GetLeftTile(coords: Coord) -> (left: Option<Coord>)
        ensures
            left == left_of(coords),
    {
        if coords.0 == 0 {
            return None;
        }
        Some((coords.0 - 1, coords.1))
    }

    /// The neighbour to the right of `coords`, if the grid has one.
    pub fn GetRightTile(coords: Coord) -> (right: Option<Coord>)
        requires
            coords.0 < usize::MAX,
        ensures
            right == right_of(coords),
    {
        if coords.0 == 5 {
            return None;
        }
        Some((coords.0 + 1, coords.1))
    }
    /// Lets the atom at `coords` lay claim to the neighbouring tile
    /// `option`, if there is one: an empty tile becomes its zone, and a zone
    /// of another atom changes hands when the atom at `coords` was placed
    /// strictly earlier. Under a restriction the same is done to what the
    /// tile remembers.
    fn UpdateBondZone(&mut self, option: Option<Coord>, coords: Coord, symbol: String)
        requires
            in_grid(coords),
            old(self)@.tiles[coords].is_atom(),
            option matches Some(n) ==> in_grid(n) && (old(self)@.tiles[n].zone_target() matches Some(
                t,
            ) ==> in_grid(t) && old(self)@.tiles[t].is_atom()),
        ensures
            final(self).color_picker == old(self).color_picker,
            final(self)@.tiles == (match option {
                Some(n) => old(self)@.tiles.insert(
                    n,
                    claim(old(self)@.tiles[n], old(self)@.tiles, coords, symbol@),
                ),
                None => old(self)@.tiles,
            }),
    {
        match option {
            Some(neighbor_coords) => {
                let neighbor_state = self.PeekTile(neighbor_coords).GetState();
                if neighbor_state == TileState::Bond {
                    let bond_atom_coords = self.PeekTile(neighbor_coords).GetBondTile();
                    if !same_tile(coords, bond_atom_coords) {
                        let test_atom_presedence = self.PeekTile(coords).GetPresedence();
                        let bonded_atom_presedence = self.PeekTile(bond_atom_coords).GetPresedence();
                        if test_atom_presedence < bonded_atom_presedence {
                            self.GetTile(neighbor_coords).MakeBondZone(symbol, coords);
                            return ;
                        }
                    }
                } else if neighbor_state == TileState::Empty {
                    self.GetTile(neighbor_coords).MakeBondZone(symbol, coords);
                    return ;
                } else if neighbor_state == TileState::Restricted {
                    if self.PeekTile(neighbor_coords).IsBondTile() {
                        let bond_atom_coords = self.PeekTile(neighbor_coords).GetBondTile();
                        if !same_tile(coords, bond_atom_coords) {
                            let test_atom_presedence = self.PeekTile(coords).GetPresedence();
                            let bonded_atom_presedence = self.PeekTile(
                                bond_atom_coords,
                            ).GetPresedence();
                            if test_atom_presedence < bonded_atom_presedence {
                                self.GetTile(neighbor_coords).BondSubState(symbol, coords);
                                return ;
                            }
                        }
                    } else {
                        self.GetTile(neighbor_coords).BondSubState(symbol, coords);
                        return ;
                    }
                }
                assert(self@.tiles =~= old(self)@.tiles.insert(
                    neighbor_coords,
                    old(self)@.tiles[neighbor_coords],
                ));
            },
            None => {},
        }
    }
    /// Recomputes the frontier: every atom that can still take a bond lays
    /// claim to its four neighbours, the atoms taken by column and then by
    /// row.
    fn UpdateBondZones(&mut self)
        requires
            grid_wf(old(self)@.tiles),
        ensures
            final(self).color_picker == old(self).color_picker,
            final(self)@.tiles == sweep(old(self)@.tiles),
    {
        let ghost g0 = self@.tiles;
        let ghost picker = self.color_picker;
        let mut i: usize = 0;
        while i < 6
            invariant
                i <= 6,
                grid_wf(g0),
                self.color_picker == picker,
                forall|z: Coord| self@.tiles.dom().contains(z) <==> in_grid(z),
                forall|z: Coord|
                    in_grid(z) ==> #[trigger] self@.tiles[z] == swept_upto(g0, z, (i, 0)),
            decreases 6 - i,
        {
            let mut j: usize = 0;
            while j < 6
                invariant
                    i < 6,
                    j <= 6,
                    grid_wf(g0),
                    self.color_picker == picker,
                    forall|z: Coord| self@.tiles.dom().contains(z) <==> in_grid(z),
                    forall|z: Coord|
                        in_grid(z) ==> #[trigger] self@.tiles[z] == swept_upto(g0, z, (i, j)),
                decreases 6 - j,
            {
                let ghost cur = self@.tiles;
                let curr_state = self.PeekTile((i, j)).GetState();
                if curr_state == TileState::Atom || curr_state == TileState::Parent {
                    let available_bonds = self.PeekTile((i, j)).GetBondNumber();
                    if available_bonds != 0 {
                        proof {
                            lemma_mid_sweep(g0, cur, (i, j));
                            lemma_claim_at(cur, up_of((i, j)), (i, j), glyph_from_below(), (i, j));
                        }
                        self.UpdateBondZone(Self::GetUpTile((i, j)), (i, j), "vv".to_owned());
                        proof {
                            lemma_claim_at(
                                self@.tiles,
                                down_of((i, j)),
                                (i, j),
                                glyph_from_above(),
                                (i, j),
                            );
                        }
                        self.UpdateBondZone(Self::GetDownTile((i, j)), (i, j), "^^".to_owned());
                        proof {
                            lemma_claim_at(
                                self@.tiles,
                                left_of((i, j)),
                                (i, j),
                                glyph_from_right(),
                                (i, j),
                            );
                        }
                        self.UpdateBondZone(Self::GetLeftTile((i, j)), (i, j), ">>".to_owned());
                        self.UpdateBondZone(Self::GetRightTile((i, j)), (i, j), "<<".to_owned());
                    }
                }
                proof {
                    lemma_sweep_step(g0, cur, self@.tiles, (i, j));
                }
                j = j + 1;
            }
            proof {
                assert forall|z: Coord| in_grid(z) implies #[trigger] self@.tiles[z] == swept_upto(
                    g0,
                    z,
                    ((i + 1) as usize, 0),
                ) by {
                    assert(self@.tiles[z] == swept_upto(g0, z, (i, 6)));
                }
            }
            i = i + 1;
        }
        assert(self@.tiles =~= sweep(g0));
    }

    /// How many colours are left for new compounds.
    pub fn ColorsLeft(&self) -> (left: usize)
        requires
            self.wf(),
        ensures
            left == self@.palette.len(),
    {
        self.color_picker.Remaining()
    }

    /// Removes the zone that the neighbouring tile `option` shows or
    /// remembers, if there is such a tile.
    fn RemoveBondZone(&mut self, option: Option<Coord>)
        requires
            option matches Some(n) ==> in_grid(n),
        ensures
            final(self).color_picker == old(self).color_picker,
            final(self)@.tiles == (match option {
                Some(n) => old(self)@.tiles.insert(n, stripped(old(self)@.tiles[n])),
                None => old(self)@.tiles,
            }),
    {
        match option {
            Some(tile) => {
                let state = self.PeekTile(tile).GetState();
                if state == TileState::Bond {
                    self.GetTile(tile).ClearTile();
                    return ;
                } else if state == TileState::Restricted {
                    if self.PeekTile(tile).IsBondTile() {
                        self.GetTile(tile).EmptySubState();
                        return ;
                    }
                }
                assert(self@.tiles =~= old(self)@.tiles.insert(tile, old(self)@.tiles[tile]));
            },
            None => {},
        }
    }

    /// Removes the zones on the four neighbours of `coords`.
    fn RemoveBondZones(&mut self, coords: Coord)
        requires
            in_grid(coords),
        ensures
            final(self).color_picker == old(self).color_picker,
            final(self)@.tiles == strip_around(old(self)@.tiles, coords),
    {
        self.RemoveBondZone(Self::GetUpTile(coords));
        self.RemoveBondZone(Self::GetDownTile(coords));
        self.RemoveBondZone(Self::GetLeftTile(coords));
        self.RemoveBondZone(Self::GetRightTile(coords));
        assert(self@.tiles =~= strip_around(old(self)@.tiles, coords));
    }

    /// Says why the tile at `coords` cannot be restricted, if it cannot.
    fn TestRestrict(&self, coords: Coord) -> (refusal: Option<BoardStatus>)
        requires
            in_grid(coords),
        ensures
            match restrict_refusal(self@.tiles, coords) {
                Some(message) => refusal is Some && refusal->0@ == rejected(message),
                None => refusal is None,
            },
    {
        let state = self.PeekTile(coords).GetState();
        if state == TileState::Atom || state == TileState::Parent {
            return Some(reject("Error: Cannot restrict on top of atoms."));
        } else if state == TileState::Restricted {
            return Some(reject("Error: Zone is already restricted."));
        }
        None
    }

    /// Restricts the tile at `coords`.
    fn ApplyRestrict(&mut self, coords: Coord)
        requires
            in_grid(coords),
            !old(self)@.tiles[coords].is_atom(),
        ensures
            final(self).color_picker == old(self).color_picker,
            final(self)@.tiles == old(self)@.tiles.insert(
                coords,
                old(self)@.tiles[coords].restricted(),
            ),
    {
        self.GetTile(coords).MakeRestrictZone();
    }

    /// Restricts two tiles for two turns, or neither: a tile that holds an
    /// atom or is restricted already makes the whole call fail. A
    /// restricted tile remembers the zone it showed.
    pub fn Restrict(&mut self, coords_1: Coord, coords_2: Coord) -> (status: BoardStatus)
        requires
            old(self).wf(),
            in_grid(coords_1),
            in_grid(coords_2),
        ensures
            final(self).wf(),
            final(self)@.tiles == restrict(old(self)@.tiles, coords_1, coords_2).0,
            final(self)@.palette == old(self)@.palette,
            status@ == restrict(old(self)@.tiles, coords_1, coords_2).1,
            status@.error is Some ==> final(self)@ == old(self)@,
    {
        proof {
            lemma_restrict_wf(self@.tiles, coords_1, coords_2);
            lemma_covered_kept(self@.tiles, restrict(self@.tiles, coords_1, coords_2).0);
        }
        match self.TestRestrict(coords_1) {
            Some(status) => {
                return status;
            },
            None => (),
        }
        match self.TestRestrict(coords_2) {
            Some(status) => {
                return status;
            },
            None => (),
        }
        self.ApplyRestrict(coords_1);
        self.ApplyRestrict(coords_2);
        BoardStatus { error_message: None, points: None }
    }

    /// Removes the compound that the atom at `coords` belongs to: every
    /// atom of it is cleared and the zones beside them are removed. Then the
    /// frontier is recomputed. A tile without an atom makes the call fail.
    pub fn Destroy(&mut self, coords: Coord) -> (status: BoardStatus)
        requires
            old(self).wf(),
            in_grid(coords),
        ensures
            final(self).wf(),
            final(self)@.tiles == destroy(old(self)@.tiles, coords).0,
            final(self)@.palette == old(self)@.palette,
            status@ == destroy(old(self)@.tiles, coords).1,
            status@.error is Some ==> final(self)@ == old(self)@,
    {
        let state = self.PeekTile(coords).GetState();
        if state != TileState::Parent && state != TileState::Atom {
            return reject("Error: No compound specified.");
        }
        let parent_tile = self.PeekTile(coords).GetParentTile();
        let ghost g0 = self@.tiles;
        let ghost picker = self.color_picker;
        let mut i: usize = 0;
        while i < 6
            invariant
                i <= 6,
                self.color_picker == picker,
                forall|z: Coord| self@.tiles.dom().contains(z) <==> in_grid(z),
                forall|z: Coord|
                    in_grid(z) ==> #[trigger] self@.tiles[z] == razed_upto(
                        g0,
                        parent_tile,
                        z,
                        (i, 0),
                    ),
            decreases 6 - i,
        {
            let mut j: usize = 0;
            while j < 6
                invariant
                    i < 6,
                    j <= 6,
                    self.color_picker == picker,
                    forall|z: Coord| self@.tiles.dom().contains(z) <==> in_grid(z),
                    forall|z: Coord|
                        in_grid(z) ==> #[trigger] self@.tiles[z] == razed_upto(
                            g0,
                            parent_tile,
                            z,
                            (i, j),
                        ),
                decreases 6 - j,
            {
                let ghost cur = self@.tiles;
                let state = self.PeekTile((i, j)).GetState();
                if state == TileState::Atom || state == TileState::Parent {
                    if same_tile(self.PeekTile((i, j)).GetParentTile(), parent_tile) {
                        self.RemoveBondZones((i, j));
                        self.GetTile((i, j)).ClearTile();
                    }
                }
                proof {
                    assert(cur[(i, j)] == razed_upto(g0, parent_tile, (i, j), (i, j)));
                    assert forall|z: Coord| in_grid(z) implies #[trigger] self@.tiles[z]
                        == razed_upto(g0, parent_tile, z, (i, (j + 1) as usize)) by {
                        assert(cur[z] == razed_upto(g0, parent_tile, z, (i, j)));
                        lemma_stripped(g0[z]);
                    }
                }
                j = j + 1;
            }
            proof {
                assert forall|z: Coord| in_grid(z) implies #[trigger] self@.tiles[z] == razed_upto(
                    g0,
                    parent_tile,
                    z,
                    ((i + 1) as usize, 0),
                ) by {
                    assert(self@.tiles[z] == razed_upto(g0, parent_tile, z, (i, 6)));
                }
            }
            i = i + 1;
        }
        proof {
            assert(self@.tiles =~= razed(g0, parent_tile));
            lemma_razed_wf(g0, parent_tile);
            lemma_sweep_wf(razed(g0, parent_tile));
            lemma_sweep_covered(razed(g0, parent_tile));
        }
        self.UpdateBondZones();
        BoardStatus { error_message: None, points: None }
    }

    /// The upkeep at the end of a turn: every restriction counts down, a
    /// restriction that ends shows the zone it remembered or an empty tile,
    /// and the frontier is recomputed.
    pub fn EndTurn(&mut self)
        requires
            old(self).wf(),
        ensures
            final(self).wf(),
            final(self)@.tiles == end_turn(old(self)@.tiles),
            final(self)@.palette == old(self)@.palette,
    {
        let ghost g0 = self@.tiles;
        let ghost picker = self.color_picker;
        let mut i: usize = 0;
        while i < 6
            invariant
                i <= 6,
                grid_wf(g0),
                self.color_picker == picker,
                forall|z: Coord| self@.tiles.dom().contains(z) <==> in_grid(z),
                forall|z: Coord|
                    in_grid(z) ==> #[trigger] self@.tiles[z] == aged_upto(g0, z, (i, 0)),
            decreases 6 - i,
        {
            let mut j: usize = 0;
            while j < 6
                invariant
                    i < 6,
                    j <= 6,
                    grid_wf(g0),
                    self.color_picker == picker,
                    forall|z: Coord| self@.tiles.dom().contains(z) <==> in_grid(z),
                    forall|z: Coord|
                        in_grid(z) ==> #[trigger] self@.tiles[z] == aged_upto(g0, z, (i, j)),
                decreases 6 - j,
            {
                let ghost cur = self@.tiles;
                assert(cur[(i, j)] == g0[(i, j)]);
                assert(g0[(i, j)].wf());
                if self.PeekTile((i, j)).GetState() == TileState::Restricted {
                    self.GetTile((i, j)).DecrementRestrict();
                }
                proof {
                    assert forall|z: Coord| in_grid(z) implies #[trigger] self@.tiles[z]
                        == aged_upto(g0, z, (i, (j + 1) as usize)) by {
                        assert(cur[z] == aged_upto(g0, z, (i, j)));
                    }
                }
                j = j + 1;
            }
            proof {
                assert forall|z: Coord| in_grid(z) implies #[trigger] self@.tiles[z] == aged_upto(
                    g0,
                    z,
                    ((i + 1) as usize, 0),
                ) by {
                    assert(self@.tiles[z] == aged_upto(g0, z, (i, 6)));
                }
            }
            i = i + 1;
        }
        proof {
            assert(self@.tiles =~= aged(g0));
            lemma_aged_wf(g0);
            lemma_sweep_wf(aged(g0));
            lemma_sweep_covered(aged(g0));
        }
        self.UpdateBondZones();
    }
    /// Whether `Bond` can be carried out with these arguments: a root needs
    /// a colour that is still to be had, and an atom that joins a compound
    /// needs room in the compound's atomic sum and score. The turn on which
    /// the atom is played has no part in it.
    pub fn BondFits(
        &self,
        tile: Coord,
        symbol: &String,
        bond_number: u16,
        is_metal: bool,
        atomic_number: u16,
    ) -> (fits: bool)
        requires
            self.wf(),
            in_grid(tile),
        ensures
            forall|presedence: u8|
                fits == attach_fits(
                    self@,
                    tile,
                    #[trigger] play_of(symbol@, bond_number, is_metal, presedence, atomic_number),
                ),
    {
        let state = self.PeekTile(tile).GetState();
        if state == TileState::Empty {
            return self.color_picker.Remaining() > 0;
        } else if state != TileState::Bond {
            return true;
        }
        let bond_tile_coords = self.PeekTile(tile).GetBondTile();
        proof {
            assert(zone_ok(self@.tiles, tile, bond_tile_coords));
            assert(rooted(self@.tiles, bond_tile_coords));
            let root = self@.tiles[bond_tile_coords].atom().parent;
            assert(self@.tiles[root].cell is Parent);
            lemma_counts_small(self@.tiles, root);
        }
        let bond_tile_bonds = self.PeekTile(bond_tile_coords).GetBondNumber();
        let parent_tile_coords = self.PeekTile(bond_tile_coords).GetParentTile();
        if is_metal {
            match self.PeekTile(parent_tile_coords).GetCompoundMetal() {
                Some(metal) => {
                    if !(metal == *symbol) {
                        return true;
                    }
                },
                None => {},
            }
            if self.PeekTile(bond_tile_coords).IsMetal() {
                return true;
            }
        }
        let neutral_atoms: u8 = if bond_number == bond_tile_bonds {
            2
        } else {
            1
        };
        let bonds_created: u16 = if bond_number <= bond_tile_bonds {
            bond_number
        } else {
            bond_tile_bonds
        };
        self.PeekTile(parent_tile_coords).CanUpdateCompound(
            neutral_atoms,
            atomic_number,
            bonds_created,
        )
    }

    /// Plays an atom on the tile at `tile`.
    ///
    /// On an empty tile the atom becomes the root of a new compound, in a
    /// colour of its own. On a bond zone it joins the compound of the atom
    /// behind the zone, unless it is a metal and the compound holds another
    /// metal or the atom behind the zone is a metal: the two atoms are
    /// bonded, the zones around a partner that became neutral are removed,
    /// and the root counts the atom in; when that leaves every atom of the
    /// compound neutral, the compound's score is reported. A restricted
    /// tile and a tile that holds an atom reject the play. A play that is
    /// accepted ends with the frontier recomputed; one that is rejected
    /// leaves the board as it was.
    pub fn Bond(
        &mut self,
        tile: Coord,
        symbol: String,
        bond_number: u16,
        is_metal: bool,
        presedence: u8,
        atomic_number: u16,
    ) -> (status: BoardStatus)
        requires
            old(self).wf(),
            in_grid(tile),
            attach_fits(
                old(self)@,
                tile,
                play_of(symbol@, bond_number, is_metal, presedence, atomic_number),
            ),
        ensures
            final(self).wf(),
            old(self)@.tiles[tile].cell is Empty ==> exists|pick: int|
                0 <= pick < old(self)@.palette.len() && (final(self)@, status@) == #[trigger] attach(
                    old(self)@,
                    tile,
                    play_of(symbol@, bond_number, is_metal, presedence, atomic_number),
                    pick,
                ),
            !(old(self)@.tiles[tile].cell is Empty) ==> (final(self)@, status@) == attach(
                old(self)@,
                tile,
                play_of(symbol@, bond_number, is_metal, presedence, atomic_number),
                0,
            ),
            status@.error is Some ==> final(self)@ == old(self)@,
    {
        let ghost g0 = self@.tiles;
        let ghost play = play_of(symbol@, bond_number, is_metal, presedence, atomic_number);
        let tile_state = self.PeekTile(tile).GetState();
        if tile_state == TileState::Empty {
            let ghost palette = self@.palette;
            let compound_color = self.color_picker.GetColor();
            let ghost pick = choose|pick: int|
                0 <= pick < palette.len() && compound_color == palette[pick] && self@.palette
                    == palette.remove(pick);
            let metal_component = if is_metal {
                Some(symbol.clone())
            } else {
                None
            };
            self.GetTile(tile).MakeParentZone(
                tile,
                symbol,
                bond_number,
                is_metal,
                presedence,
                metal_component,
                atomic_number,
            );
            self.GetTile(tile).SetColor(compound_color);
            proof {
                assert(self@.tiles =~= root_placed(g0, tile, play, compound_color));
                lemma_root_placed_wf(g0, tile, play, compound_color);
                lemma_sweep_wf(root_placed(g0, tile, play, compound_color));
                lemma_sweep_covered(root_placed(g0, tile, play, compound_color));
            }
            self.UpdateBondZones();
            let status = BoardStatus { error_message: None, points: None };
            proof {
                assert((self@, status@) == attach(old(self)@, tile, play, pick));
            }
            return status;
        } else if tile_state == TileState::Bond {
            let bond_tile_coords = self.PeekTile(tile).GetBondTile();
            proof {
                assert(zone_ok(g0, tile, bond_tile_coords));
                assert(rooted(g0, bond_tile_coords));
                let root = g0[bond_tile_coords].atom().parent;
                assert(g0[root].cell is Parent);
                lemma_counts_small(g0, root);
            }
            let bond_tile_bonds = self.PeekTile(bond_tile_coords).GetBondNumber();
            let parent_tile_coords = self.PeekTile(bond_tile_coords).GetParentTile();
            let compound_metal = self.PeekTile(parent_tile_coords).GetCompoundMetal();
            let compound_color = self.PeekTile(parent_tile_coords).GetColor();
            let mut add_metal: Option<String> = None;
            if is_metal {
                match compound_metal {
                    Some(metal) => {
                        if !(metal == symbol) {
                            return reject("Error: Compounds can only contain one type of metal.");
                        }
                    },
                    None => {},
                }
                if self.PeekTile(bond_tile_coords).IsMetal() {
                    return reject("Error: Metals cannot bond with each other.");
                }
                add_metal = Some(symbol.clone());
            }
            self.GetTile(tile).MakeAtomZone(
                parent_tile_coords,
                symbol,
                bond_number,
                is_metal,
                presedence,
            );
            self.GetTile(tile).SetColor(compound_color);
            let mut neutral_atoms: u8 = 0;
            let mut bonds_created: u16 = bond_number;
            if self.GetTile(tile).BondAtom(bond_tile_bonds) {
                neutral_atoms = neutral_atoms + 1;
            }
            bonds_created = bonds_created - self.PeekTile(tile).GetBondNumber();
            if self.GetTile(bond_tile_coords).BondAtom(bond_number) {
                neutral_atoms = neutral_atoms + 1;
                self.RemoveBondZones(bond_tile_coords);
            }
            let complete = self.GetTile(parent_tile_coords).UpdateCompound(
                neutral_atoms,
                atomic_number,
                bonds_created,
                add_metal,
            );
            let points = if complete {
                Some(self.PeekTile(parent_tile_coords).GetCompoundScore())
            } else {
                None
            };
            proof {
                assert(self@.tiles[parent_tile_coords] == joined_root(g0, tile, play));
                assert(self@.tiles =~= attached(g0, tile, play));
                lemma_attached_wf(g0, tile, play);
                lemma_sweep_wf(attached(g0, tile, play));
                lemma_sweep_covered(attached(g0, tile, play));
            }
            self.UpdateBondZones();
            return BoardStatus { error_message: None, points };
        } else if tile_state == TileState::Restricted {
            return reject("Error: Selected space is Restricted.");
        } else {
            return reject("Error: Selected space is occupied.");
        }
    }

    /// The first bond zone in the order of a sweep, if there is one.
    pub fn FindBondZone(&mut self) -> (found: Option<Coord>)
        ensures
            *final(self) == *old(self),
            match found {
                Some(c) => in_grid(c) && old(self)@.tiles[c].cell is Bond && forall|z: Coord|
                    in_grid(z) && before(z, c) ==> !((#[trigger] old(self)@.tiles[z]).cell is Bond),
                None => forall|z: Coord|
                    in_grid(z) ==> !((#[trigger] old(self)@.tiles[z]).cell is Bond),
            },
    {
        let mut i: usize = 0;
        while i < 6
            invariant
                i <= 6,
                *self == *old(self),
                forall|z: Coord|
                    in_grid(z) && before(z, (i, 0)) ==> !((#[trigger] self@.tiles[z]).cell
                        is Bond),
            decreases 6 - i,
        {
            let mut j: usize = 0;
            while j < 6
                invariant
                    i < 6,
                    j <= 6,
                    *self == *old(self),
                    forall|z: Coord|
                        in_grid(z) && before(z, (i, j)) ==> !((#[trigger] self@.tiles[z]).cell
                            is Bond),
                decreases 6 - j,
            {
                if self.PeekTile((i, j)).GetState() == TileState::Bond {
                    return Some((i, j));
                }
                j = j + 1;
            }
            i = i + 1;
        }
        None
    }

    /// The first empty tile in the order of a sweep; the first tile of the
    /// grid when no tile is empty.
    pub fn FindEmptyZone(&mut self) -> (found: Coord)
        ensures
            *final(self) == *old(self),
            in_grid(found),
            old(self)@.tiles[found].cell is Empty ==> forall|z: Coord|
                in_grid(z) && before(z, found) ==> !((#[trigger] old(self)@.tiles[z]).cell
                    is Empty),
            !(old(self)@.tiles[found].cell is Empty) ==> found == (0usize, 0usize) && forall|
                z: Coord,
            |
                in_grid(z) ==> !((#[trigger] old(self)@.tiles[z]).cell is Empty),
    {
        let mut i: usize = 0;
        while i < 6
            invariant
                i <= 6,
                *self == *old(self),
                forall|z: Coord|
                    in_grid(z) && before(z, (i, 0)) ==> !((#[trigger] self@.tiles[z]).cell
                        is Empty),
            decreases 6 - i,
        {
            let mut j: usize = 0;
            while j < 6
                invariant
                    i < 6,
                    j <= 6,
                    *self == *old(self),
                    forall|z: Coord|
                        in_grid(z) && before(z, (i, j)) ==> !((#[trigger] self@.tiles[z]).cell
                            is Empty),
                decreases 6 - j,
            {
                if self.PeekTile((i, j)).GetState() == TileState::Empty {
                    return (i, j);
                }
                j = j + 1;
            }
            i = i + 1;
        }
        (0, 0)
    }
}

} // verus!
