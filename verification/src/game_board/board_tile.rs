//! One cell of the grid: the state it is in, the data that state carries,
//! and the transitions between states.

use vstd::prelude::*;

verus! {

/// A grid position, column first.
pub type Coord = (usize, usize);

/// A colour as red, green, blue.
pub type Color = (u8, u8, u8);

/// The colour of an unclaimed tile.
pub open spec fn white() -> Color {
    (255u8, 255u8, 255u8)
}

/// The colour of a restricted tile.
pub open spec fn red() -> Color {
    (228u8, 8u8, 10u8)
}

/// The glyph of a tile that shows nothing.
pub open spec fn blank() -> Seq<char> {
    "  "@
}

/// The tag of a tile's state.
#[derive(Clone, Copy, Debug, PartialEq, Eq, Structural)]
pub enum TileState {
    Empty,
    Restricted,
    Bond,
    Atom,
    Parent,
}

/// What every placed atom carries.
#[derive(Clone, Copy, Debug)]
pub struct AtomData {
    /// Where the root of its compound lies.
    pub parent: Coord,
    /// How many bonds it can still form.
    pub bonds: u16,
    pub is_metal: bool,
    /// The turn it was placed on; the lower value wins a contested zone.
    pub presedence: u8,
}

/// The running totals that the root of a compound keeps.
#[derive(Clone, Copy, Debug)]
pub struct Totals {
    pub atoms: u8,
    pub neutral: u8,
    pub largest_bond: u16,
    pub atomic_sum: u16,
}

/// The state of a tile with the data that belongs to it.
pub enum CellModel {
    Empty,
    /// Unusable for `counter` more turns; `substate` is the atom the tile
    /// will point at as a bond zone once the restriction ends.
    Restricted { counter: u8, substate: Option<Coord> },
    /// A free attachment point for the atom at `target`.
    Bond { target: Coord },
    Atom { atom: AtomData },
    /// The root of a compound, with the compound's totals and the symbol of
    /// its metal, if it has one.
    Parent { atom: AtomData, totals: Totals, metal: Option<Seq<char>> },
}

/// The mathematical value of a tile.
pub struct TileModel {
    pub cell: CellModel,
    pub color: Color,
    pub symbol: Seq<char>,
}

/// Remaining capacity after a bond with a partner of `partner` bonds.
pub open spec fn saturate(capacity: u16, partner: u16) -> u16 {
    if capacity <= partner {
        0u16
    } else {
        (capacity - partner) as u16
    }
}

/// The view of an optional string.
pub open spec fn tag_view(tag: Option<String>) -> Option<Seq<char>> {
    match tag {
        Some(s) => Some(s@),
        None => None,
    }
}

impl TileModel {
    /// An empty tile.
    pub open spec fn empty() -> TileModel {
        TileModel { cell: CellModel::Empty, color: white(), symbol: blank() }
    }

    /// A bond zone for the atom at `target`.
    pub open spec fn bond_zone(symbol: Seq<char>, target: Coord) -> TileModel {
        TileModel { cell: CellModel::Bond { target }, color: white(), symbol }
    }

    /// An atom that is no root.
    pub open spec fn atom_zone(symbol: Seq<char>, atom: AtomData) -> TileModel {
        TileModel { cell: CellModel::Atom { atom }, color: white(), symbol }
    }

    /// A fresh root: one atom, none neutral, no bond formed yet.
    pub open spec fn parent_zone(
        symbol: Seq<char>,
        atom: AtomData,
        metal: Option<Seq<char>>,
        sum: u16,
    ) -> TileModel {
        TileModel {
            cell: CellModel::Parent {
                atom,
                totals: Totals { atoms: 1, neutral: 0, largest_bond: 0, atomic_sum: sum },
                metal,
            },
            color: white(),
            symbol,
        }
    }

    /// The tag of the tile's state.
    pub open spec fn state(self) -> TileState {
        match self.cell {
            CellModel::Empty => TileState::Empty,
            CellModel::Restricted { .. } => TileState::Restricted,
            CellModel::Bond { .. } => TileState::Bond,
            CellModel::Atom { .. } => TileState::Atom,
            CellModel::Parent { .. } => TileState::Parent,
        }
    }

    /// A restriction counts down from 2 and is gone at 0.
    pub open spec fn wf(self) -> bool {
        self.cell matches CellModel::Restricted { counter, .. } ==> 1 <= counter <= 2
    }

    /// Whether an atom stands on the tile, root or not.
    pub open spec fn is_atom(self) -> bool {
        self.cell is Atom || self.cell is Parent
    }

    /// The atom on the tile.
    pub open spec fn atom(self) -> AtomData
        recommends
            self.is_atom(),
    {
        match self.cell {
            CellModel::Atom { atom } => atom,
            CellModel::Parent { atom, .. } => atom,
            _ => arbitrary(),
        }
    }

    /// The atom a bond zone points at, shown or remembered under a
    /// restriction.
    pub open spec fn zone_target(self) -> Option<Coord> {
        match self.cell {
            CellModel::Bond { target } => Some(target),
            CellModel::Restricted { substate, .. } => substate,
            _ => None,
        }
    }

    /// The tile in another colour.
    pub open spec fn with_color(self, color: Color) -> TileModel {
        TileModel { color, ..self }
    }

    /// The tile under a new restriction, remembering what it was.
    pub open spec fn restricted(self) -> TileModel {
        TileModel {
            cell: CellModel::Restricted { counter: 2, substate: self.zone_target() },
            color: red(),
            symbol: self.symbol,
        }
    }

    /// A restricted tile that will reveal a zone for `target`.
    pub open spec fn with_substate(self, symbol: Seq<char>, target: Coord) -> TileModel
        recommends
            self.cell is Restricted,
    {
        TileModel {
            cell: CellModel::Restricted {
                counter: self.cell->Restricted_counter,
                substate: Some(target),
            },
            color: self.color,
            symbol,
        }
    }

    /// A restricted tile that will reveal nothing.
    pub open spec fn without_substate(self) -> TileModel
        recommends
            self.cell is Restricted,
    {
        TileModel {
            cell: CellModel::Restricted {
                counter: self.cell->Restricted_counter,
                substate: None,
            },
            color: red(),
            symbol: blank(),
        }
    }

    /// One turn of upkeep on a restricted tile: the counter drops, and at 0
    /// the tile shows what it remembered.
    pub open spec fn decremented(self) -> TileModel
        recommends
            self.cell is Restricted,
    {
        let counter = self.cell->Restricted_counter;
        if counter > 1 {
            TileModel {
                cell: CellModel::Restricted {
                    counter: (counter - 1) as u8,
                    substate: self.cell->Restricted_substate,
                },
                ..self
            }
        } else {
            TileModel {
                cell: match self.cell->Restricted_substate {
                    Some(target) => CellModel::Bond { target },
                    None => CellModel::Empty,
                },
                color: white(),
                symbol: self.symbol,
            }
        }
    }

    /// The tile with another atom in the place of its own.
    pub open spec fn with_atom(self, atom: AtomData) -> TileModel
        recommends
            self.is_atom(),
    {
        TileModel {
            cell: match self.cell {
                CellModel::Parent { totals, metal, .. } => CellModel::Parent { atom, totals, metal },
                _ => CellModel::Atom { atom },
            },
            ..self
        }
    }

    /// The atom after a bond with a partner of `partner` bonds.
    pub open spec fn bonded(self, partner: u16) -> TileModel
        recommends
            self.is_atom(),
    {
        self.with_atom(AtomData { bonds: saturate(self.atom().bonds, partner), ..self.atom() })
    }

    /// Whether the totals of a root leave room for one more atom.
    pub open spec fn join_fits(self, neutral_created: u8, atomic_number: u16) -> bool
        recommends
            self.cell is Parent,
    {
        let totals = self.cell->totals;
        &&& totals.atoms + 1 <= u8::MAX
        &&& totals.neutral + neutral_created <= u8::MAX
        &&& totals.atomic_sum + atomic_number <= u16::MAX
    }

    /// The root after one more atom has joined its compound.
    pub open spec fn joined(
        self,
        neutral_created: u8,
        atomic_number: u16,
        bonds_created: u16,
        metal: Option<Seq<char>>,
    ) -> TileModel
        recommends
            self.cell is Parent,
    {
        let totals = self.cell->totals;
        TileModel {
            cell: CellModel::Parent {
                atom: self.cell->Parent_atom,
                totals: Totals {
                    atoms: (totals.atoms + 1) as u8,
                    neutral: (totals.neutral + neutral_created) as u8,
                    largest_bond: if bonds_created > totals.largest_bond {
                        bonds_created
                    } else {
                        totals.largest_bond
                    },
                    atomic_sum: (totals.atomic_sum + atomic_number) as u16,
                },
                metal: if metal is Some {
                    metal
                } else {
                    self.cell->metal
                },
            },
            ..self
        }
    }

    /// A compound is complete when every atom in it is neutral.
    pub open spec fn complete(self) -> bool
        recommends
            self.cell is Parent,
    {
        self.cell->totals.atoms == self.cell->totals.neutral
    }

    /// What a compound is worth: its atomic sum times its largest bond.
    pub open spec fn score(self) -> int
        recommends
            self.cell is Parent,
    {
        self.cell->totals.atomic_sum * self.cell->totals.largest_bond
    }
}

/// Whether the product of two numbers fits in sixteen bits.
fn product_fits(a: u16, b: u16) -> (fits: bool)
    ensures
        fits == (a * b <= u16::MAX),
{
    let wide: u32 = a as u32;
    let other: u32 = b as u32;
    assert(wide * other <= 0xffff * 0xffff) by (nonlinear_arith)
        requires
            wide <= 0xffff,
            other <= 0xffff,
    ;
    wide * other <= 65535
}

/// The state of a tile as it is stored.
enum Cell {
    Empty,
    Restricted { counter: u8, substate: Option<Coord> },
    Bond { target: Coord },
    Atom { atom: AtomData },
    Parent { atom: AtomData, totals: Totals, metal: Option<String> },
}

impl Cell {
    spec fn model(self) -> CellModel {
        match self {
            Cell::Empty => CellModel::Empty,
            Cell::Restricted { counter, substate } => CellModel::Restricted { counter, substate },
            Cell::Bond { target } => CellModel::Bond { target },
            Cell::Atom { atom } => CellModel::Atom { atom },
            Cell::Parent { atom, totals, metal } => CellModel::Parent {
                atom,
                totals,
                metal: tag_view(metal),
            },
        }
    }
}

/// One tile of the board.
pub struct BoardTile {
    color: Color,
    symbol: String,
    cell: Cell,
}

impl View for BoardTile {
    type V = TileModel;

    closed spec fn view(&self) -> TileModel {
        TileModel { cell: self.cell.model(), color: self.color, symbol: self.symbol@ }
    }
}

impl Default for BoardTile {
    fn default() -> (tile: Self)
        ensures
            tile@ == TileModel::empty(),
    {
        BoardTile { color: (255, 255, 255), symbol: "  ".to_owned(), cell: Cell::Empty }
    }
}

impl BoardTile {
    /// Resets the tile to the empty state.
    pub fn ClearTile(&mut self)
        ensures
            final(self)@ == TileModel::empty(),
    {
        self.color = (255, 255, 255);
        self.symbol = "  ".to_owned();
        self.cell = Cell::Empty;
    }

    /// Restricts a tile that holds no atom for two turns. The tile keeps its
    /// glyph and remembers the atom it pointed at, if any.
    pub fn MakeRestrictZone(&mut self)
        requires
            !old(self)@.is_atom(),
        ensures
            final(self)@ == old(self)@.restricted(),
    {
        let substate = match &self.cell {
            Cell::Bond { target } => Some(*target),
            Cell::Restricted { substate, .. } => *substate,
            _ => None,
        };
        self.cell = Cell::Restricted { counter: 2, substate };
        self.color = (228, 8, 10);
    }

    /// Turns the tile into a bond zone for the atom at `bond_tile`.
    pub fn MakeBondZone(&mut self, symbol: String, bond_tile: Coord)
        ensures
            final(self)@ == TileModel::bond_zone(symbol@, bond_tile),
    {
        self.color = (255, 255, 255);
        self.symbol = symbol;
        self.cell = Cell::Bond { target: bond_tile };
    }

    /// Places an atom that belongs to the compound rooted at `parent`.
    pub fn MakeAtomZone(
        &mut self,
        parent: Coord,
        symbol: String,
        bond_number: u16,
        is_metal: bool,
        presedence: u8,
    )
        ensures
            final(self)@ == TileModel::atom_zone(
                symbol@,
                AtomData { parent, bonds: bond_number, is_metal, presedence },
            ),
    {
        self.color = (255, 255, 255);
        self.symbol = symbol;
        self.cell = Cell::Atom {
            atom: AtomData { parent, bonds: bond_number, is_metal, presedence },
        };
    }

    /// Places the root of a new compound; `tile` is the tile's own position.
    pub fn MakeParentZone(
        &mut self,
        tile: Coord,
        symbol: String,
        bond_number: u16,
        is_metal: bool,
        presedence: u8,
        metal_component: Option<String>,
        sum: u16,
    )
        ensures
            final(self)@ == TileModel::parent_zone(
                symbol@,
                AtomData { parent: tile, bonds: bond_number, is_metal, presedence },
                tag_view(metal_component),
                sum,
            ),
    {
        self.color = (255, 255, 255);
        self.symbol = symbol;
        self.cell = Cell::Parent {
            atom: AtomData { parent: tile, bonds: bond_number, is_metal, presedence },
            totals: Totals { atoms: 1, neutral: 0, largest_bond: 0, atomic_sum: sum },
            metal: metal_component,
        };
    }

    /// The tag of the tile's state.
    pub fn GetState(&self) -> (state: TileState)
        ensures
            state == self@.state(),
    {
        match &self.cell {
            Cell::Empty => TileState::Empty,
            Cell::Restricted { .. } => TileState::Restricted,
            Cell::Bond { .. } => TileState::Bond,
            Cell::Atom { .. } => TileState::Atom,
            Cell::Parent { .. } => TileState::Parent,
        }
    }

    /// The colour of the tile.
    pub fn GetColor(&self) -> (color: Color)
        ensures
            color == self@.color,
    {
        self.color
    }

    /// Gives the tile another colour.
    pub fn SetColor(&mut self, rgb: Color)
        ensures
            final(self)@ == old(self)@.with_color(rgb),
    {
        self.color = rgb;
    }

    /// The glyph of the tile.
    pub fn GetSymbol(&self) -> (symbol: String)
        ensures
            symbol@ == self@.symbol,
    {
        self.symbol.clone()
    }

    /// Whether the tile is a bond zone, shown or remembered under a
    /// restriction.
    pub fn IsBondTile(&self) -> (is_zone: bool)
        ensures
            is_zone == (self@.zone_target() is Some),
    {
        match &self.cell {
            Cell::Bond { .. } => true,
            Cell::Restricted { substate, .. } => substate.is_some(),
            _ => false,
        }
    }

    /// Makes a restricted tile remember a zone for the atom at `bond_tile`.
    pub fn BondSubState(&mut self, symbol: String, bond_tile: Coord)
        requires
            old(self)@.cell is Restricted,
        ensures
            final(self)@ == old(self)@.with_substate(symbol@, bond_tile),
    {
        self.symbol = symbol;
        match &mut self.cell {
            Cell::Restricted { substate, .. } => {
                *substate = Some(bond_tile);
            },
            _ => {},
        }
    }

    /// Makes a restricted tile forget the zone it remembered.
    pub fn EmptySubState(&mut self)
        requires
            old(self)@.cell is Restricted,
        ensures
            final(self)@ == old(self)@.without_substate(),
    {
        self.color = (228, 8, 10);
        self.symbol = "  ".to_owned();
        match &mut self.cell {
            Cell::Restricted { substate, .. } => {
                *substate = None;
            },
            _ => {},
        }
    }

    /// One turn of upkeep on a restricted tile.
    pub fn DecrementRestrict(&mut self)
        requires
            old(self)@.cell is Restricted,
            old(self)@.wf(),
        ensures
            final(self)@ == old(self)@.decremented(),
    {
        let (counter, substate) = match &self.cell {
            Cell::Restricted { counter, substate } => (*counter, *substate),
            _ => (1, None),
        };
        if counter > 1 {
            self.cell = Cell::Restricted { counter: counter - 1, substate };
        } else {
            self.color = (255, 255, 255);
            self.cell = match substate {
                Some(target) => Cell::Bond { target },
                None => Cell::Empty,
            };
        }
    }

    /// The atom that a bond zone points at.
    pub fn GetBondTile(&self) -> (target: Coord)
        requires
            self@.zone_target() is Some,
        ensures
            Some(target) == self@.zone_target(),
    {
        match &self.cell {
            Cell::Bond { target } => *target,
            Cell::Restricted { substate: Some(target), .. } => *target,
            _ => (0, 0),
        }
    }

    /// The atom on the tile.
    fn atom_data(&self) -> (atom: AtomData)
        requires
            self@.is_atom(),
        ensures
            atom == self@.atom(),
    {
        match &self.cell {
            Cell::Atom { atom } => *atom,
            Cell::Parent { atom, .. } => *atom,
            _ => AtomData { parent: (0, 0), bonds: 0, is_metal: false, presedence: 0 },
        }
    }

    /// Whether the atom on the tile is a metal.
    pub fn IsMetal(&self) -> (is_metal: bool)
        requires
            self@.is_atom(),
        ensures
            is_metal == self@.atom().is_metal,
    {
        self.atom_data().is_metal
    }

    /// Bonds the atom with a partner of `partner_bonds` bonds and says
    /// whether that left it neutral.
    pub fn BondAtom(&mut self, partner_bonds: u16) -> (neutral: bool)
        requires
            old(self)@.is_atom(),
        ensures
            final(self)@ == old(self)@.bonded(partner_bonds),
            neutral == (old(self)@.atom().bonds <= partner_bonds),
    {
        match &mut self.cell {
            Cell::Atom { atom } => {
                if atom.bonds <= partner_bonds {
                    atom.bonds = 0;
                    true
                } else {
                    atom.bonds = atom.bonds - partner_bonds;
                    false
                }
            },
            Cell::Parent { atom, .. } => {
                if atom.bonds <= partner_bonds {
                    atom.bonds = 0;
                    true
                } else {
                    atom.bonds = atom.bonds - partner_bonds;
                    false
                }
            },
            _ => false,
        }
    }

    /// How many bonds the atom on the tile can still form.
    pub fn GetBondNumber(&self) -> (bonds: u16)
        requires
            self@.is_atom(),
        ensures
            bonds == self@.atom().bonds,
    {
        self.atom_data().bonds
    }

    /// Where the root of the atom's compound lies.
    pub fn GetParentTile(&self) -> (parent: Coord)
        requires
            self@.is_atom(),
        ensures
            parent == self@.atom().parent,
    {
        self.atom_data().parent
    }

    /// The turn on which the atom was placed.
    pub fn GetPresedence(&self) -> (presedence: u8)
        requires
            self@.is_atom(),
        ensures
            presedence == self@.atom().presedence,
    {
        self.atom_data().presedence
    }

    /// The symbol of the compound's metal; `None` on a tile that is no root.
    pub fn GetCompoundMetal(&self) -> (metal: Option<String>)
        ensures
            tag_view(metal) == (match self@.cell {
                CellModel::Parent { metal, .. } => metal,
                _ => None,
            }),
    {
        match &self.cell {
            Cell::Parent { metal: Some(tag), .. } => Some(tag.clone()),
            _ => None,
        }
    }

    /// The totals of the compound rooted here.
    pub fn GetTotals(&self) -> (totals: Totals)
        requires
            self@.cell is Parent,
        ensures
            totals == self@.cell->totals,
    {
        match &self.cell {
            Cell::Parent { totals, .. } => *totals,
            _ => Totals { atoms: 0, neutral: 0, largest_bond: 0, atomic_sum: 0 },
        }
    }

    /// Whether the compound's totals can take one more atom in, and the
    /// score can be reported should that atom complete the compound.
    pub fn CanUpdateCompound(
        &self,
        neutral_created: u8,
        atomic_number: u16,
        bonds_created: u16,
    ) -> (fits: bool)
        requires
            self@.cell is Parent,
        ensures
            fits == (self@.join_fits(neutral_created, atomic_number) && (self@.joined(
                neutral_created,
                atomic_number,
                bonds_created,
                None,
            ).complete() ==> self@.joined(
                neutral_created,
                atomic_number,
                bonds_created,
                None,
            ).score() <= u16::MAX)),
    {
        let totals = self.GetTotals();
        if totals.atoms == u8::MAX || neutral_created > u8::MAX - totals.neutral || atomic_number
            > u16::MAX - totals.atomic_sum {
            return false;
        }
        let atoms: u8 = totals.atoms + 1;
        let neutral: u8 = totals.neutral + neutral_created;
        let sum: u16 = totals.atomic_sum + atomic_number;
        let largest: u16 = if bonds_created > totals.largest_bond {
            bonds_created
        } else {
            totals.largest_bond
        };
        if atoms != neutral {
            return true;
        }
        product_fits(sum, largest)
    }

    /// Adds one atom to the compound's totals and says whether the compound
    /// is now complete.
    pub fn UpdateCompound(
        &mut self,
        neutral_created: u8,
        atomic_number: u16,
        bonds_created: u16,
        metal: Option<String>,
    ) -> (complete: bool)
        requires
            old(self)@.cell is Parent,
            old(self)@.join_fits(neutral_created, atomic_number),
        ensures
            final(self)@ == old(self)@.joined(
                neutral_created,
                atomic_number,
                bonds_created,
                tag_view(metal),
            ),
            complete == final(self)@.complete(),
    {
        match &mut self.cell {
            Cell::Parent { totals, metal: tag, .. } => {
                totals.atoms = totals.atoms + 1;
                totals.neutral = totals.neutral + neutral_created;
                totals.atomic_sum = totals.atomic_sum + atomic_number;
                if metal.is_some() {
                    *tag = metal;
                }
                if bonds_created > totals.largest_bond {
                    totals.largest_bond = bonds_created;
                }
                totals.atoms == totals.neutral
            },
            _ => false,
        }
    }

    /// The score of the compound rooted here.
    pub fn GetCompoundScore(&self) -> (score: u16)
        requires
            self@.cell is Parent,
            self@.score() <= u16::MAX,
        ensures
            score == self@.score(),
    {
        match &self.cell {
            Cell::Parent { totals, .. } => totals.atomic_sum * totals.largest_bond,
            _ => 0,
        }
    }
}

} // verus!
