use atom_board::game_board::board_tile::{BoardTile, TileState};
use atom_board::game_board::{BoardStatus, GameBoard};

fn describe(tile: &BoardTile) -> String {
    let state = tile.GetState();
    let mut text = format!("{:?} {:?} {:?}", state, tile.GetColor(), tile.GetSymbol());
    if tile.IsBondTile() {
        text = format!("{} zone {:?}", text, tile.GetBondTile());
    }
    if state == TileState::Atom || state == TileState::Parent {
        text = format!(
            "{} atom {:?} {} {} {}",
            text,
            tile.GetParentTile(),
            tile.GetBondNumber(),
            tile.IsMetal(),
            tile.GetPresedence()
        );
    }
    if state == TileState::Parent {
        text = format!("{} root {:?} {:?}", text, tile.GetTotals(), tile.GetCompoundMetal());
    }
    text
}

fn snapshot(board: &GameBoard) -> Vec<String> {
    let mut all = Vec::new();
    for x in 0..6 {
        for y in 0..6 {
            all.push(describe(board.PeekTile((x, y))));
        }
    }
    all
}

fn state_at(board: &GameBoard, coords: (usize, usize)) -> TileState {
    board.PeekTile(coords).GetState()
}

fn count_state(board: &GameBoard, state: TileState) -> usize {
    let mut n = 0;
    for x in 0..6 {
        for y in 0..6 {
            if state_at(board, (x, y)) == state {
                n += 1;
            }
        }
    }
    n
}

fn play(
    board: &mut GameBoard,
    coords: (usize, usize),
    symbol: &str,
    bonds: u16,
    metal: bool,
    turn: u8,
    number: u16,
) -> BoardStatus {
    assert!(board.BondFits(coords, &String::from(symbol), bonds, metal, number));
    board.Bond(coords, String::from(symbol), bonds, metal, turn, number)
}

fn accepted(status: &BoardStatus) -> bool {
    status.error_message.is_none()
}

#[test]
fn new_board_is_empty() {
    let board = GameBoard::default();
    assert_eq!(count_state(&board, TileState::Empty), 36);
    assert_eq!(board.ColorsLeft(), 20);
    let tile = board.PeekTile((3, 4));
    assert_eq!(tile.GetColor(), (255, 255, 255));
    assert_eq!(tile.GetSymbol(), "  ");
    assert!(!tile.IsBondTile());
}

#[test]
fn attach_on_empty_tile_makes_root() {
    let mut board = GameBoard::default();
    let status = play(&mut board, (0, 0), "H", 1, false, 1, 1);
    assert_eq!(status.error_message, None);
    assert_eq!(status.points, None);
    let root = board.PeekTile((0, 0));
    assert_eq!(root.GetState(), TileState::Parent);
    let totals = root.GetTotals();
    assert_eq!(totals.atoms, 1);
    assert_eq!(totals.neutral, 0);
    assert_eq!(totals.largest_bond, 0);
    assert_eq!(totals.atomic_sum, 1);
    assert_eq!(root.GetParentTile(), (0, 0));
    assert_eq!(root.GetBondNumber(), 1);
    assert_eq!(root.GetPresedence(), 1);
    assert!(!root.IsMetal());
    assert_eq!(root.GetCompoundMetal(), None);
    assert_eq!(root.GetSymbol(), "H");
    assert_eq!(root.GetCompoundScore(), 0);
    assert_eq!(board.ColorsLeft(), 19);
}

#[test]
fn root_takes_a_colour_of_the_palette() {
    let palette: Vec<(u8, u8, u8)> = {
        let mut picker = atom_board::game_board::color_picker::ColorPicker::default();
        let mut all = Vec::new();
        while picker.Remaining() > 0 {
            all.push(picker.TakeColor(0));
        }
        all
    };
    let mut board = GameBoard::default();
    play(&mut board, (2, 2), "C ", 4, false, 1, 6);
    let color = board.PeekTile((2, 2)).GetColor();
    assert!(palette.contains(&color));
}

#[test]
fn sweep_places_zones_around_root() {
    let mut board = GameBoard::default();
    play(&mut board, (0, 0), "H", 1, false, 1, 1);
    let right = board.PeekTile((1, 0));
    assert_eq!(right.GetState(), TileState::Bond);
    assert_eq!(right.GetBondTile(), (0, 0));
    assert_eq!(right.GetSymbol(), "<<");
    assert_eq!(right.GetColor(), (255, 255, 255));
    let below = board.PeekTile((0, 1));
    assert_eq!(below.GetState(), TileState::Bond);
    assert_eq!(below.GetBondTile(), (0, 0));
    assert_eq!(below.GetSymbol(), "^^");
    assert_eq!(count_state(&board, TileState::Bond), 2);
    assert_eq!(count_state(&board, TileState::Empty), 33);
}

#[test]
fn sweep_places_four_zones_inside_the_grid() {
    let mut board = GameBoard::default();
    play(&mut board, (2, 3), "C ", 4, false, 1, 6);
    assert_eq!(board.PeekTile((2, 2)).GetSymbol(), "vv");
    assert_eq!(board.PeekTile((2, 4)).GetSymbol(), "^^");
    assert_eq!(board.PeekTile((1, 3)).GetSymbol(), ">>");
    assert_eq!(board.PeekTile((3, 3)).GetSymbol(), "<<");
    for zone in [(2, 2), (2, 4), (1, 3), (3, 3)] {
        assert_eq!(state_at(&board, zone), TileState::Bond);
        assert_eq!(board.PeekTile(zone).GetBondTile(), (2, 3));
    }
    assert_eq!(count_state(&board, TileState::Bond), 4);
}

#[test]
fn two_hydrogens_complete_a_compound() {
    let mut board = GameBoard::default();
    play(&mut board, (0, 0), "H", 1, false, 1, 1);
    let status = play(&mut board, (1, 0), "H", 1, false, 2, 1);
    assert_eq!(status.error_message, None);
    assert_eq!(status.points, Some(2));
    let root = board.PeekTile((0, 0));
    let totals = root.GetTotals();
    assert_eq!(totals.atoms, 2);
    assert_eq!(totals.neutral, 2);
    assert_eq!(totals.largest_bond, 1);
    assert_eq!(totals.atomic_sum, 2);
    assert_eq!(root.GetBondNumber(), 0);
    let atom = board.PeekTile((1, 0));
    assert_eq!(atom.GetState(), TileState::Atom);
    assert_eq!(atom.GetParentTile(), (0, 0));
    assert_eq!(atom.GetBondNumber(), 0);
    assert_eq!(atom.GetColor(), root.GetColor());
    assert_eq!(count_state(&board, TileState::Bond), 0);
    assert_eq!(count_state(&board, TileState::Empty), 34);
}

#[test]
fn saturation_keeps_the_difference() {
    let mut board = GameBoard::default();
    play(&mut board, (2, 2), "C ", 4, false, 1, 6);
    let status = play(&mut board, (2, 1), "O ", 2, false, 2, 8);
    assert!(accepted(&status));
    assert_eq!(status.points, None);
    assert_eq!(board.PeekTile((2, 2)).GetBondNumber(), 2);
    assert_eq!(board.PeekTile((2, 1)).GetBondNumber(), 0);
    let totals = board.PeekTile((2, 2)).GetTotals();
    assert_eq!(totals.atoms, 2);
    assert_eq!(totals.neutral, 1);
    assert_eq!(totals.largest_bond, 2);
    assert_eq!(totals.atomic_sum, 14);
    assert_eq!(state_at(&board, (2, 0)), TileState::Empty);
    assert_eq!(state_at(&board, (2, 3)), TileState::Bond);
}

#[test]
fn larger_atom_keeps_capacity_and_gets_zones() {
    let mut board = GameBoard::default();
    play(&mut board, (2, 2), "H ", 1, false, 1, 1);
    let status = play(&mut board, (3, 2), "C ", 4, false, 2, 6);
    assert!(accepted(&status));
    assert_eq!(status.points, None);
    assert_eq!(board.PeekTile((2, 2)).GetBondNumber(), 0);
    assert_eq!(board.PeekTile((3, 2)).GetBondNumber(), 3);
    let totals = board.PeekTile((2, 2)).GetTotals();
    assert_eq!(totals.neutral, 1);
    assert_eq!(totals.largest_bond, 1);
    assert_eq!(state_at(&board, (1, 2)), TileState::Empty);
    assert_eq!(state_at(&board, (2, 1)), TileState::Empty);
    assert_eq!(state_at(&board, (2, 3)), TileState::Empty);
    for zone in [(3, 1), (3, 3), (4, 2)] {
        assert_eq!(state_at(&board, zone), TileState::Bond);
        assert_eq!(board.PeekTile(zone).GetBondTile(), (3, 2));
    }
}

#[test]
fn methane_scores_sum_times_largest_bond() {
    let mut board = GameBoard::default();
    play(&mut board, (2, 2), "C ", 4, false, 1, 6);
    assert_eq!(play(&mut board, (2, 1), "H ", 1, false, 2, 1).points, None);
    assert_eq!(play(&mut board, (2, 3), "H ", 1, false, 3, 1).points, None);
    assert_eq!(play(&mut board, (1, 2), "H ", 1, false, 4, 1).points, None);
    let last = play(&mut board, (3, 2), "H ", 1, false, 5, 1);
    assert_eq!(last.error_message, None);
    assert_eq!(last.points, Some(10));
    let totals = board.PeekTile((2, 2)).GetTotals();
    assert_eq!(totals.atoms, 5);
    assert_eq!(totals.neutral, 5);
    assert_eq!(totals.atomic_sum, 10);
    assert_eq!(totals.largest_bond, 1);
}

#[test]
fn double_bond_doubles_the_score() {
    let mut board = GameBoard::default();
    play(&mut board, (0, 0), "O ", 2, false, 1, 8);
    let status = play(&mut board, (0, 1), "O ", 2, false, 2, 8);
    assert_eq!(status.points, Some(32));
}

#[test]
fn restricted_tile_rejects_attach() {
    let mut board = GameBoard::default();
    assert!(accepted(&board.Restrict((2, 0), (2, 1))));
    let before = snapshot(&board);
    let status = play(&mut board, (2, 0), "H", 1, false, 1, 1);
    assert_eq!(status.error_message, Some(String::from("Error: Selected space is Restricted.")));
    assert_eq!(status.points, None);
    assert_eq!(snapshot(&board), before);
    assert_eq!(board.ColorsLeft(), 20);
}

#[test]
fn occupied_tile_rejects_attach() {
    let mut board = GameBoard::default();
    play(&mut board, (0, 0), "H", 1, false, 1, 1);
    play(&mut board, (1, 0), "C ", 4, false, 2, 6);
    let before = snapshot(&board);
    let on_root = play(&mut board, (0, 0), "H", 1, false, 3, 1);
    assert_eq!(on_root.error_message, Some(String::from("Error: Selected space is occupied.")));
    let on_atom = play(&mut board, (1, 0), "H", 1, false, 3, 1);
    assert_eq!(on_atom.error_message, Some(String::from("Error: Selected space is occupied.")));
    assert_eq!(on_atom.points, None);
    assert_eq!(snapshot(&board), before);
}

#[test]
fn restrict_lasts_two_turns() {
    let mut board = GameBoard::default();
    let status = board.Restrict((2, 0), (2, 1));
    assert_eq!(status.error_message, None);
    assert_eq!(status.points, None);
    for coords in [(2, 0), (2, 1)] {
        let tile = board.PeekTile(coords);
        assert_eq!(tile.GetState(), TileState::Restricted);
        assert_eq!(tile.GetColor(), (228, 8, 10));
        assert!(!tile.IsBondTile());
    }
    board.EndTurn();
    assert_eq!(state_at(&board, (2, 0)), TileState::Restricted);
    assert_eq!(state_at(&board, (2, 1)), TileState::Restricted);
    board.EndTurn();
    assert_eq!(state_at(&board, (2, 0)), TileState::Empty);
    assert_eq!(state_at(&board, (2, 1)), TileState::Empty);
    assert_eq!(snapshot(&board), snapshot(&GameBoard::default()));
}

#[test]
fn restricted_zone_comes_back_as_zone() {
    let mut board = GameBoard::default();
    play(&mut board, (0, 0), "C ", 4, false, 1, 6);
    assert!(accepted(&board.Restrict((1, 0), (5, 5))));
    let zone = board.PeekTile((1, 0));
    assert_eq!(zone.GetState(), TileState::Restricted);
    assert!(zone.IsBondTile());
    assert_eq!(zone.GetBondTile(), (0, 0));
    assert_eq!(zone.GetSymbol(), "<<");
    board.EndTurn();
    assert_eq!(state_at(&board, (1, 0)), TileState::Restricted);
    board.EndTurn();
    let zone = board.PeekTile((1, 0));
    assert_eq!(zone.GetState(), TileState::Bond);
    assert_eq!(zone.GetBondTile(), (0, 0));
    assert_eq!(zone.GetColor(), (255, 255, 255));
    assert_eq!(state_at(&board, (5, 5)), TileState::Empty);
}

#[test]
fn restricted_tile_remembers_a_new_neighbour() {
    let mut board = GameBoard::default();
    assert!(accepted(&board.Restrict((1, 0), (5, 5))));
    play(&mut board, (0, 0), "C ", 4, false, 1, 6);
    let tile = board.PeekTile((1, 0));
    assert_eq!(tile.GetState(), TileState::Restricted);
    assert!(tile.IsBondTile());
    assert_eq!(tile.GetBondTile(), (0, 0));
    assert_eq!(tile.GetSymbol(), "<<");
    assert_eq!(tile.GetColor(), (228, 8, 10));
}

#[test]
fn restrict_is_all_or_nothing() {
    let mut board = GameBoard::default();
    play(&mut board, (0, 0), "H", 1, false, 1, 1);
    let before = snapshot(&board);
    let status = board.Restrict((3, 3), (0, 0));
    assert_eq!(
        status.error_message,
        Some(String::from("Error: Cannot restrict on top of atoms."))
    );
    assert_eq!(status.points, None);
    assert_eq!(snapshot(&board), before);
    let status = board.Restrict((0, 0), (3, 3));
    assert_eq!(
        status.error_message,
        Some(String::from("Error: Cannot restrict on top of atoms."))
    );
    assert_eq!(snapshot(&board), before);
}

#[test]
fn restrict_twice_is_rejected() {
    let mut board = GameBoard::default();
    assert!(accepted(&board.Restrict((3, 3), (4, 4))));
    let before = snapshot(&board);
    let status = board.Restrict((1, 1), (3, 3));
    assert_eq!(status.error_message, Some(String::from("Error: Zone is already restricted.")));
    assert_eq!(snapshot(&board), before);
    assert_eq!(state_at(&board, (1, 1)), TileState::Empty);
}

#[test]
fn restrict_same_tile_twice_in_one_call() {
    let mut board = GameBoard::default();
    assert!(accepted(&board.Restrict((3, 3), (3, 3))));
    assert_eq!(state_at(&board, (3, 3)), TileState::Restricted);
    assert_eq!(count_state(&board, TileState::Restricted), 1);
    board.EndTurn();
    board.EndTurn();
    assert_eq!(state_at(&board, (3, 3)), TileState::Empty);
}

#[test]
fn second_metal_of_another_kind_is_rejected() {
    let mut board = GameBoard::default();
    play(&mut board, (0, 0), "C ", 4, false, 1, 6);
    let status = play(&mut board, (1, 0), "Li", 1, true, 2, 3);
    assert!(accepted(&status));
    assert_eq!(board.PeekTile((0, 0)).GetCompoundMetal(), Some(String::from("Li")));
    let before = snapshot(&board);
    let status = play(&mut board, (0, 1), "Na", 1, true, 3, 11);
    assert_eq!(
        status.error_message,
        Some(String::from("Error: Compounds can only contain one type of metal."))
    );
    assert_eq!(status.points, None);
    assert_eq!(snapshot(&board), before);
}

#[test]
fn metal_root_sets_the_tag_and_rejects_another_metal() {
    let mut board = GameBoard::default();
    play(&mut board, (0, 0), "Li", 1, true, 1, 3);
    assert_eq!(board.PeekTile((0, 0)).GetCompoundMetal(), Some(String::from("Li")));
    assert!(board.PeekTile((0, 0)).IsMetal());
    let before = snapshot(&board);
    let status = play(&mut board, (1, 0), "Na", 1, true, 2, 11);
    assert_eq!(
        status.error_message,
        Some(String::from("Error: Compounds can only contain one type of metal."))
    );
    assert_eq!(snapshot(&board), before);
}

#[test]
fn metal_on_metal_is_rejected() {
    let mut board = GameBoard::default();
    play(&mut board, (0, 0), "Be", 2, true, 1, 4);
    let before = snapshot(&board);
    let status = play(&mut board, (1, 0), "Be", 2, true, 2, 4);
    assert_eq!(
        status.error_message,
        Some(String::from("Error: Metals cannot bond with each other."))
    );
    assert_eq!(status.points, None);
    assert_eq!(snapshot(&board), before);
}

#[test]
fn same_metal_joins_through_a_non_metal() {
    let mut board = GameBoard::default();
    play(&mut board, (2, 2), "C ", 4, false, 1, 6);
    assert!(accepted(&play(&mut board, (2, 1), "Li", 1, true, 2, 3)));
    let status = play(&mut board, (2, 3), "Li", 1, true, 3, 3);
    assert!(accepted(&status));
    assert_eq!(board.PeekTile((2, 2)).GetCompoundMetal(), Some(String::from("Li")));
    assert_eq!(board.PeekTile((2, 2)).GetTotals().atoms, 3);
}

#[test]
fn non_metal_joins_a_metal() {
    let mut board = GameBoard::default();
    play(&mut board, (0, 0), "Li", 1, true, 1, 3);
    let status = play(&mut board, (1, 0), "F ", 1, false, 2, 9);
    assert_eq!(status.error_message, None);
    assert_eq!(status.points, Some(12));
}

#[test]
fn destroy_removes_the_compound() {
    let mut board = GameBoard::default();
    play(&mut board, (0, 0), "H", 1, false, 1, 1);
    play(&mut board, (1, 0), "H", 1, false, 2, 1);
    let status = board.Destroy((0, 0));
    assert_eq!(status.error_message, None);
    assert_eq!(status.points, None);
    assert_eq!(state_at(&board, (0, 0)), TileState::Empty);
    assert_eq!(state_at(&board, (1, 0)), TileState::Empty);
    assert_eq!(count_state(&board, TileState::Empty), 36);
    assert_eq!(snapshot(&board), snapshot(&GameBoard::default()));
}

#[test]
fn destroy_from_any_atom_removes_zones_too() {
    let mut board = GameBoard::default();
    play(&mut board, (2, 2), "C ", 4, false, 1, 6);
    play(&mut board, (3, 2), "O ", 2, false, 2, 8);
    assert_eq!(count_state(&board, TileState::Bond), 3);
    assert!(accepted(&board.Restrict((2, 1), (5, 5))));
    let status = board.Destroy((3, 2));
    assert!(accepted(&status));
    assert_eq!(count_state(&board, TileState::Bond), 0);
    assert_eq!(count_state(&board, TileState::Atom), 0);
    assert_eq!(count_state(&board, TileState::Parent), 0);
    let kept = board.PeekTile((2, 1));
    assert_eq!(kept.GetState(), TileState::Restricted);
    assert!(!kept.IsBondTile());
    assert_eq!(kept.GetSymbol(), "  ");
    assert_eq!(kept.GetColor(), (228, 8, 10));
}

#[test]
fn destroy_leaves_other_compounds_and_gives_them_the_zones() {
    let mut board = GameBoard::default();
    play(&mut board, (0, 0), "C ", 4, false, 1, 6);
    play(&mut board, (2, 0), "C ", 4, false, 2, 6);
    assert_eq!(board.PeekTile((1, 0)).GetBondTile(), (0, 0));
    let status = board.Destroy((0, 0));
    assert!(accepted(&status));
    assert_eq!(state_at(&board, (0, 0)), TileState::Empty);
    assert_eq!(state_at(&board, (0, 1)), TileState::Empty);
    assert_eq!(state_at(&board, (2, 0)), TileState::Parent);
    let shared = board.PeekTile((1, 0));
    assert_eq!(shared.GetState(), TileState::Bond);
    assert_eq!(shared.GetBondTile(), (2, 0));
    assert_eq!(shared.GetSymbol(), ">>");
}

#[test]
fn destroy_needs_an_atom() {
    let mut board = GameBoard::default();
    play(&mut board, (0, 0), "H", 1, false, 1, 1);
    assert!(accepted(&board.Restrict((4, 4), (5, 5))));
    let before = snapshot(&board);
    for coords in [(3, 3), (1, 0), (4, 4)] {
        let status = board.Destroy(coords);
        assert_eq!(status.error_message, Some(String::from("Error: No compound specified.")));
        assert_eq!(status.points, None);
        assert_eq!(snapshot(&board), before);
    }
}

#[test]
fn earlier_atom_takes_a_contested_zone() {
    let mut board = GameBoard::default();
    play(&mut board, (0, 0), "C ", 4, false, 5, 6);
    assert_eq!(board.PeekTile((1, 0)).GetBondTile(), (0, 0));
    play(&mut board, (2, 0), "C ", 4, false, 3, 6);
    let zone = board.PeekTile((1, 0));
    assert_eq!(zone.GetBondTile(), (2, 0));
    assert_eq!(zone.GetSymbol(), ">>");
}

#[test]
fn later_atom_leaves_a_contested_zone() {
    let mut board = GameBoard::default();
    play(&mut board, (0, 0), "C ", 4, false, 3, 6);
    play(&mut board, (2, 0), "C ", 4, false, 5, 6);
    let zone = board.PeekTile((1, 0));
    assert_eq!(zone.GetBondTile(), (0, 0));
    assert_eq!(zone.GetSymbol(), "<<");
    play(&mut board, (1, 1), "C ", 4, false, 3, 6);
    assert_eq!(board.PeekTile((1, 0)).GetBondTile(), (0, 0));
}

#[test]
fn contest_goes_on_under_a_restriction() {
    let mut board = GameBoard::default();
    play(&mut board, (0, 0), "C ", 4, false, 5, 6);
    assert!(accepted(&board.Restrict((1, 0), (5, 5))));
    play(&mut board, (2, 0), "C ", 4, false, 3, 6);
    let zone = board.PeekTile((1, 0));
    assert_eq!(zone.GetState(), TileState::Restricted);
    assert_eq!(zone.GetBondTile(), (2, 0));
    assert_eq!(zone.GetSymbol(), ">>");
    board.EndTurn();
    board.EndTurn();
    let zone = board.PeekTile((1, 0));
    assert_eq!(zone.GetState(), TileState::Bond);
    assert_eq!(zone.GetBondTile(), (2, 0));
}

#[test]
fn neutral_partner_loses_its_zones() {
    let mut board = GameBoard::default();
    play(&mut board, (2, 2), "H ", 1, false, 1, 1);
    assert!(accepted(&board.Restrict((2, 1), (5, 5))));
    assert!(board.PeekTile((2, 1)).IsBondTile());
    play(&mut board, (3, 2), "H ", 1, false, 2, 1);
    assert_eq!(count_state(&board, TileState::Bond), 0);
    let kept = board.PeekTile((2, 1));
    assert_eq!(kept.GetState(), TileState::Restricted);
    assert!(!kept.IsBondTile());
}

#[test]
fn colours_of_roots_never_repeat() {
    let mut board = GameBoard::default();
    let mut seen: Vec<(u8, u8, u8)> = Vec::new();
    let mut turn: u8 = 1;
    for x in 0..6 {
        for y in 0..6 {
            if (x + y) % 2 == 0 {
                let status = play(&mut board, (x, y), "Ne", 0, false, turn, 10);
                assert!(accepted(&status));
                let color = board.PeekTile((x, y)).GetColor();
                assert!(!seen.contains(&color));
                seen.push(color);
                turn += 1;
            }
        }
    }
    assert_eq!(seen.len(), 18);
    assert_eq!(board.ColorsLeft(), 2);
}

#[test]
fn find_zones_in_sweep_order() {
    let mut board = GameBoard::default();
    assert_eq!(board.FindBondZone(), None);
    assert_eq!(board.FindEmptyZone(), (0, 0));
    play(&mut board, (0, 0), "C ", 4, false, 1, 6);
    assert_eq!(board.FindBondZone(), Some((0, 1)));
    assert_eq!(board.FindEmptyZone(), (0, 2));
    play(&mut board, (3, 3), "C ", 4, false, 2, 6);
    assert_eq!(board.FindBondZone(), Some((0, 1)));
    assert!(accepted(&board.Restrict((0, 1), (0, 2))));
    assert_eq!(board.FindBondZone(), Some((1, 0)));
    assert_eq!(board.FindEmptyZone(), (0, 3));
}

#[test]
fn bond_fits_tells_when_totals_would_overflow() {
    let mut board = GameBoard::default();
    play(&mut board, (0, 0), "X ", 4, false, 1, 65535);
    assert!(!board.BondFits((1, 0), &String::from("H "), 1, false, 1));
    assert!(board.BondFits((0, 0), &String::from("H "), 1, false, 1));
    assert!(board.BondFits((3, 3), &String::from("H "), 1, false, 1));
    let mut board = GameBoard::default();
    play(&mut board, (0, 0), "X ", 3, false, 1, 40000);
    assert!(!board.BondFits((1, 0), &String::from("Y "), 3, false, 1));
    assert!(board.BondFits((1, 0), &String::from("Y "), 2, false, 1));
    assert!(board.BondFits((1, 0), &String::from("Y "), 4, false, 1));
}

#[test]
fn neighbours_stop_at_the_edge() {
    assert_eq!(GameBoard::GetUpTile((2, 0)), None);
    assert_eq!(GameBoard::GetUpTile((2, 3)), Some((2, 2)));
    assert_eq!(GameBoard::GetDownTile((2, 5)), None);
    assert_eq!(GameBoard::GetDownTile((2, 3)), Some((2, 4)));
    assert_eq!(GameBoard::GetLeftTile((0, 3)), None);
    assert_eq!(GameBoard::GetLeftTile((2, 3)), Some((1, 3)));
    assert_eq!(GameBoard::GetRightTile((5, 3)), None);
    assert_eq!(GameBoard::GetRightTile((2, 3)), Some((3, 3)));
}

#[test]
fn full_board_has_no_empty_tile() {
    let mut board = GameBoard::default();
    let mut turn: u8 = 1;
    for x in 0..6 {
        for y in 0..6 {
            if (x + y) % 2 == 0 {
                assert!(accepted(&play(&mut board, (x, y), "C ", 4, false, turn, 6)));
                turn += 1;
            }
        }
    }
    assert_eq!(count_state(&board, TileState::Empty), 0);
    assert_eq!(count_state(&board, TileState::Parent), 18);
    assert_eq!(count_state(&board, TileState::Bond), 18);
    assert_eq!(board.FindEmptyZone(), (0, 0));
    assert_eq!(board.FindBondZone(), Some((0, 1)));
    for x in 0..6 {
        for y in 0..6 {
            if (x + y) % 2 == 1 {
                let owner = board.PeekTile((x, y)).GetBondTile();
                let rank = board.PeekTile(owner).GetPresedence();
                for neighbour in [
                    GameBoard::GetUpTile((x, y)),
                    GameBoard::GetDownTile((x, y)),
                    GameBoard::GetLeftTile((x, y)),
                    GameBoard::GetRightTile((x, y)),
                ] {
                    if let Some(other) = neighbour {
                        assert!(rank <= board.PeekTile(other).GetPresedence());
                    }
                }
            }
        }
    }
}
