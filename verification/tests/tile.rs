use atom_board::game_board::board_tile::{BoardTile, TileState};

fn root(bonds: u16, sum: u16) -> BoardTile {
    let mut tile = BoardTile::default();
    tile.MakeParentZone((1, 2), String::from("C "), bonds, false, 7, None, sum);
    tile
}

#[test]
fn default_tile_is_empty() {
    let tile = BoardTile::default();
    assert_eq!(tile.GetState(), TileState::Empty);
    assert_eq!(tile.GetColor(), (255, 255, 255));
    assert_eq!(tile.GetSymbol(), "  ");
    assert!(!tile.IsBondTile());
    assert_eq!(tile.GetCompoundMetal(), None);
}

#[test]
fn clear_tile_resets_everything() {
    let mut tile = root(4, 6);
    tile.SetColor((1, 2, 3));
    tile.ClearTile();
    assert_eq!(tile.GetState(), TileState::Empty);
    assert_eq!(tile.GetColor(), (255, 255, 255));
    assert_eq!(tile.GetSymbol(), "  ");
    assert!(!tile.IsBondTile());
    assert_eq!(tile.GetCompoundMetal(), None);
}

#[test]
fn bond_zone_points_at_its_atom() {
    let mut tile = BoardTile::default();
    tile.SetColor((9, 9, 9));
    tile.MakeBondZone(String::from("vv"), (3, 4));
    assert_eq!(tile.GetState(), TileState::Bond);
    assert!(tile.IsBondTile());
    assert_eq!(tile.GetBondTile(), (3, 4));
    assert_eq!(tile.GetSymbol(), "vv");
    assert_eq!(tile.GetColor(), (255, 255, 255));
}

#[test]
fn atom_zone_holds_the_atom() {
    let mut tile = BoardTile::default();
    tile.MakeAtomZone((2, 3), String::from("Li"), 1, true, 9);
    assert_eq!(tile.GetState(), TileState::Atom);
    assert_eq!(tile.GetParentTile(), (2, 3));
    assert_eq!(tile.GetBondNumber(), 1);
    assert!(tile.IsMetal());
    assert_eq!(tile.GetPresedence(), 9);
    assert_eq!(tile.GetSymbol(), "Li");
    assert_eq!(tile.GetColor(), (255, 255, 255));
    assert!(!tile.IsBondTile());
    assert_eq!(tile.GetCompoundMetal(), None);
}

#[test]
fn parent_zone_starts_the_totals() {
    let mut tile = BoardTile::default();
    tile.MakeParentZone(
        (4, 5),
        String::from("Be"),
        2,
        true,
        3,
        Some(String::from("Be")),
        4,
    );
    assert_eq!(tile.GetState(), TileState::Parent);
    assert_eq!(tile.GetParentTile(), (4, 5));
    assert_eq!(tile.GetBondNumber(), 2);
    assert!(tile.IsMetal());
    assert_eq!(tile.GetPresedence(), 3);
    assert_eq!(tile.GetCompoundMetal(), Some(String::from("Be")));
    let totals = tile.GetTotals();
    assert_eq!(totals.atoms, 1);
    assert_eq!(totals.neutral, 0);
    assert_eq!(totals.largest_bond, 0);
    assert_eq!(totals.atomic_sum, 4);
    assert_eq!(tile.GetCompoundScore(), 0);
}

#[test]
fn set_color_changes_only_the_colour() {
    let mut tile = root(4, 6);
    tile.SetColor((10, 20, 30));
    assert_eq!(tile.GetColor(), (10, 20, 30));
    assert_eq!(tile.GetState(), TileState::Parent);
    assert_eq!(tile.GetSymbol(), "C ");
    assert_eq!(tile.GetBondNumber(), 4);
}

#[test]
fn restrict_empty_tile_remembers_nothing() {
    let mut tile = BoardTile::default();
    tile.MakeRestrictZone();
    assert_eq!(tile.GetState(), TileState::Restricted);
    assert_eq!(tile.GetColor(), (228, 8, 10));
    assert_eq!(tile.GetSymbol(), "  ");
    assert!(!tile.IsBondTile());
    tile.DecrementRestrict();
    assert_eq!(tile.GetState(), TileState::Restricted);
    assert_eq!(tile.GetColor(), (228, 8, 10));
    tile.DecrementRestrict();
    assert_eq!(tile.GetState(), TileState::Empty);
    assert_eq!(tile.GetColor(), (255, 255, 255));
}

#[test]
fn restrict_zone_remembers_the_zone() {
    let mut tile = BoardTile::default();
    tile.MakeBondZone(String::from("<<"), (0, 0));
    tile.MakeRestrictZone();
    assert_eq!(tile.GetState(), TileState::Restricted);
    assert!(tile.IsBondTile());
    assert_eq!(tile.GetBondTile(), (0, 0));
    assert_eq!(tile.GetSymbol(), "<<");
    tile.DecrementRestrict();
    assert_eq!(tile.GetState(), TileState::Restricted);
    tile.DecrementRestrict();
    assert_eq!(tile.GetState(), TileState::Bond);
    assert_eq!(tile.GetBondTile(), (0, 0));
    assert_eq!(tile.GetSymbol(), "<<");
    assert_eq!(tile.GetColor(), (255, 255, 255));
}

#[test]
fn restricting_again_starts_the_count_anew() {
    let mut tile = BoardTile::default();
    tile.MakeBondZone(String::from("<<"), (0, 0));
    tile.MakeRestrictZone();
    tile.DecrementRestrict();
    tile.MakeRestrictZone();
    assert_eq!(tile.GetBondTile(), (0, 0));
    tile.DecrementRestrict();
    assert_eq!(tile.GetState(), TileState::Restricted);
    tile.DecrementRestrict();
    assert_eq!(tile.GetState(), TileState::Bond);
}

#[test]
fn substate_can_be_set_and_cleared() {
    let mut tile = BoardTile::default();
    tile.MakeRestrictZone();
    tile.BondSubState(String::from("^^"), (2, 1));
    assert_eq!(tile.GetState(), TileState::Restricted);
    assert!(tile.IsBondTile());
    assert_eq!(tile.GetBondTile(), (2, 1));
    assert_eq!(tile.GetSymbol(), "^^");
    assert_eq!(tile.GetColor(), (228, 8, 10));
    tile.DecrementRestrict();
    tile.EmptySubState();
    assert_eq!(tile.GetState(), TileState::Restricted);
    assert!(!tile.IsBondTile());
    assert_eq!(tile.GetSymbol(), "  ");
    assert_eq!(tile.GetColor(), (228, 8, 10));
    tile.DecrementRestrict();
    assert_eq!(tile.GetState(), TileState::Empty);
}

#[test]
fn bond_atom_with_equal_partner_saturates() {
    let mut tile = root(2, 8);
    assert!(tile.BondAtom(2));
    assert_eq!(tile.GetBondNumber(), 0);
}

#[test]
fn bond_atom_with_larger_partner_saturates() {
    let mut tile = BoardTile::default();
    tile.MakeAtomZone((0, 0), String::from("H "), 1, false, 2);
    assert!(tile.BondAtom(4));
    assert_eq!(tile.GetBondNumber(), 0);
    assert_eq!(tile.GetState(), TileState::Atom);
}

#[test]
fn bond_atom_with_smaller_partner_keeps_the_rest() {
    let mut tile = root(4, 6);
    assert!(!tile.BondAtom(1));
    assert_eq!(tile.GetBondNumber(), 3);
    assert!(!tile.BondAtom(2));
    assert_eq!(tile.GetBondNumber(), 1);
    assert_eq!(tile.GetState(), TileState::Parent);
    assert_eq!(tile.GetTotals().atoms, 1);
}

#[test]
fn update_compound_adds_up() {
    let mut tile = root(4, 6);
    assert!(!tile.UpdateCompound(1, 1, 1, None));
    let totals = tile.GetTotals();
    assert_eq!(totals.atoms, 2);
    assert_eq!(totals.neutral, 1);
    assert_eq!(totals.largest_bond, 1);
    assert_eq!(totals.atomic_sum, 7);
    assert_eq!(tile.GetCompoundMetal(), None);
    assert!(!tile.UpdateCompound(0, 3, 2, Some(String::from("Li"))));
    let totals = tile.GetTotals();
    assert_eq!(totals.atoms, 3);
    assert_eq!(totals.neutral, 1);
    assert_eq!(totals.largest_bond, 2);
    assert_eq!(totals.atomic_sum, 10);
    assert_eq!(tile.GetCompoundMetal(), Some(String::from("Li")));
    assert!(tile.UpdateCompound(3, 8, 1, None));
    let totals = tile.GetTotals();
    assert_eq!(totals.atoms, 4);
    assert_eq!(totals.neutral, 4);
    assert_eq!(totals.largest_bond, 2);
    assert_eq!(totals.atomic_sum, 18);
    assert_eq!(tile.GetCompoundMetal(), Some(String::from("Li")));
    assert_eq!(tile.GetCompoundScore(), 36);
}

#[test]
fn can_update_compound_guards_the_totals() {
    let tile = root(4, 65000);
    assert!(tile.CanUpdateCompound(1, 535, 1));
    assert!(!tile.CanUpdateCompound(1, 536, 1));
    assert!(!tile.CanUpdateCompound(2, 535, 2));
    assert!(tile.CanUpdateCompound(2, 535, 1));
    let tile = root(4, 30000);
    assert!(!tile.CanUpdateCompound(2, 10000, 2));
    assert!(tile.CanUpdateCompound(2, 10000, 1));
    assert!(tile.CanUpdateCompound(1, 10000, 2));
}
