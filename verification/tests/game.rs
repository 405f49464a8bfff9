use atom_board::game::{Game, IsBareCommand, IsWord, Phase, ResultText, Step};
use atom_board::game_board::board_tile::TileState;

type Fields = (Option<String>, (Option<String>, Option<String>, Option<String>));

fn line(words: &[&str]) -> Fields {
    let word = |i: usize| words.get(i).map(|w| String::from(*w));
    let known = ["quit", "start", "play", "restrict", "destroy", "evolve", "pass"];
    let command = match words.first() {
        Some(w) if known.contains(w) => Some(String::from(*w)),
        _ => None,
    };
    (command, (word(1), word(2), word(3)))
}

fn last_line(game: &Game) -> (String, bool) {
    let log = game.Log();
    log.Line(log.Length() - 1).unwrap()
}

fn hand_names(game: &Game) -> Vec<String> {
    let deck = game.PlayerDeck();
    let text = deck.UpperHandText();
    text.split('|')
        .filter(|part| !part.is_empty())
        .map(|part| String::from(part.trim_end()))
        .collect()
}

fn player_game() -> Game {
    let mut game = Game::StartWith(true);
    assert_eq!(game.BeginTurn(), Step::Done);
    assert_eq!(game.GetPhase(), Phase::Ability);
    game
}

fn pass(game: &mut Game) {
    assert_eq!(game.Ability(&line(&["pass"])), Step::Done);
    assert_eq!(game.GetPhase(), Phase::Main);
}

#[test]
fn new_game_deals_four_cards_each() {
    let game = Game::StartWith(true);
    assert_eq!(game.GetPhase(), Phase::Begin);
    assert!(game.IsPlayerTurn());
    assert_eq!(game.TurnNumber(), 1);
    assert_eq!(game.PlayerScore(), 0);
    assert_eq!(game.ComputerScore(), 0);
    assert_eq!(game.Abilities(), (1, 1, 2));
    assert_eq!(game.PlayerDeck().HandSize(), 4);
    assert_eq!(game.PlayerDeck().DeckSize(), 12);
    assert_eq!(game.ComputerDeck().HandSize(), 4);
    assert_eq!(game.ComputerDeck().DeckSize(), 12);
    assert_eq!(game.Log().Length(), 1);
    assert_eq!(last_line(&game), (String::from("Player is going first."), false));
    assert_eq!(game.Board().ColorsLeft(), 20);
    let game = Game::StartWith(false);
    assert!(!game.IsPlayerTurn());
    assert_eq!(last_line(&game), (String::from("Computer is going first."), false));
}

#[test]
fn start_lets_chance_choose_who_begins() {
    let game = Game::Start();
    assert_eq!(game.GetPhase(), Phase::Begin);
    assert_eq!(game.Log().Length(), 1);
    let (text, is_error) = last_line(&game);
    assert!(!is_error);
    if game.IsPlayerTurn() {
        assert_eq!(text, "Player is going first.");
    } else {
        assert_eq!(text, "Computer is going first.");
    }
}

#[test]
fn player_turn_begins_with_a_draw() {
    let game = player_game();
    assert_eq!(game.PlayerDeck().HandSize(), 5);
    assert_eq!(game.PlayerDeck().DeckSize(), 11);
    assert_eq!(game.ComputerDeck().HandSize(), 4);
    assert!(game.IsPlayerTurn());
}

#[test]
fn pass_ends_the_ability_phase() {
    let mut game = player_game();
    pass(&mut game);
    assert_eq!(last_line(&game), (String::from("Player has passed their ability phase."), false));
    assert_eq!(game.Abilities(), (1, 1, 2));
}

#[test]
fn unknown_command_is_logged() {
    let mut game = player_game();
    assert_eq!(game.Ability(&line(&["dance"])), Step::Again);
    assert_eq!(game.GetPhase(), Phase::Ability);
    assert_eq!(last_line(&game), (String::from("Error: Invalid command."), true));
    assert_eq!(game.Ability(&line(&["play", "H", "A1"])), Step::Again);
    assert_eq!(last_line(&game), (String::from("Error: Invalid command."), true));
    pass(&mut game);
    assert_eq!(game.Play(&line(&["pass"])), Step::Again);
    assert_eq!(game.GetPhase(), Phase::Main);
    assert_eq!(last_line(&game), (String::from("Error: Invalid command."), true));
}

#[test]
fn restrict_ability_can_be_used_twice() {
    let mut game = player_game();
    assert_eq!(game.Ability(&line(&["restrict", "A1"])), Step::Again);
    assert_eq!(last_line(&game), (String::from("Error: Invalid parameters."), true));
    assert_eq!(game.Ability(&line(&["restrict", "A1", "B2", "C3"])), Step::Again);
    assert_eq!(last_line(&game), (String::from("Error: Invalid parameters."), true));
    assert_eq!(game.Ability(&line(&["restrict", "A1", "G2"])), Step::Again);
    assert_eq!(last_line(&game), (String::from("Error: Invalid parameters."), true));
    assert_eq!(game.Abilities(), (1, 1, 2));
    assert_eq!(game.Ability(&line(&["restrict", "A1", "b2"])), Step::Done);
    assert_eq!(last_line(&game), (String::from("Player used restrict ability."), false));
    assert_eq!(game.Abilities(), (1, 1, 1));
    assert_eq!(game.GetPhase(), Phase::Main);
    assert_eq!(game.Board().PeekTile((0, 0)).GetState(), TileState::Restricted);
    assert_eq!(game.Board().PeekTile((1, 1)).GetState(), TileState::Restricted);
}

#[test]
fn used_up_restrict_is_no_command() {
    let mut game = Game::StartWith(true);
    let mut used = 0;
    while game.GetPhase() != Phase::Over && used < 3 {
        assert_eq!(game.BeginTurn(), Step::Done);
        if game.GetPhase() != Phase::Ability {
            continue;
        }
        if used == 0 {
            assert_eq!(game.Ability(&line(&["restrict", "F6", "F5"])), Step::Done);
            assert_eq!(game.Abilities(), (1, 1, 1));
        } else if used == 1 {
            assert_eq!(game.Ability(&line(&["restrict", "A1", "E6"])), Step::Again);
            assert_eq!(
                last_line(&game),
                (String::from("Error: Cannot restrict on top of atoms."), true)
            );
            assert_eq!(game.Abilities(), (1, 1, 1));
            assert_eq!(game.Board().PeekTile((4, 5)).GetState(), TileState::Empty);
            assert_eq!(game.Ability(&line(&["restrict", "E6", "E5"])), Step::Done);
            assert_eq!(game.Abilities(), (1, 1, 0));
        } else {
            assert_eq!(game.Ability(&line(&["restrict", "A6", "B6"])), Step::Again);
            assert_eq!(last_line(&game), (String::from("Error: Invalid command."), true));
            pass(&mut game);
        }
        used += 1;
        let mut played = false;
        for name in hand_names(&game) {
            for tile in ["A1", "A2", "A3", "B1", "B2", "C1", "C3", "D1", "D4"] {
                if !played && game.Play(&line(&["play", name.as_str(), tile])) == Step::Done {
                    played = true;
                }
            }
        }
        assert!(played);
    }
    assert_eq!(used, 3);
}

#[test]
fn destroy_needs_a_compound() {
    let mut game = player_game();
    assert_eq!(game.Ability(&line(&["destroy"])), Step::Again);
    assert_eq!(last_line(&game), (String::from("Error: Invalid parameters."), true));
    assert_eq!(game.Ability(&line(&["destroy", "A1", "B1"])), Step::Again);
    assert_eq!(last_line(&game), (String::from("Error: Invalid parameters."), true));
    assert_eq!(game.Ability(&line(&["destroy", "Z9"])), Step::Again);
    assert_eq!(last_line(&game), (String::from("Error: Invalid parameters."), true));
    assert_eq!(game.Ability(&line(&["destroy", "A1"])), Step::Again);
    assert_eq!(last_line(&game), (String::from("Error: No compound specified."), true));
    assert_eq!(game.Abilities(), (1, 1, 2));
    assert_eq!(game.GetPhase(), Phase::Ability);
}

#[test]
fn evolve_changes_a_card_of_the_hand() {
    let mut game = player_game();
    assert_eq!(game.Ability(&line(&["evolve"])), Step::Again);
    assert_eq!(game.Ability(&line(&["evolve", "Xe"])), Step::Again);
    assert_eq!(last_line(&game), (String::from("Error: Invalid parameters."), true));
    let names = hand_names(&game);
    let first = names[0].clone();
    assert_eq!(game.Ability(&line(&["evolve", first.as_str()])), Step::Done);
    assert_eq!(last_line(&game), (String::from("Player has evolved an atom."), false));
    assert_eq!(game.Abilities(), (0, 1, 2));
    let evolved = match first.as_str() {
        "H" => "Li",
        "Li" => "Na",
        "Be" => "Mg",
        "C" => "Si",
        "N" => "P",
        "O" => "S",
        "F" => "Cl",
        other => panic!("unknown card {}", other),
    };
    assert_eq!(hand_names(&game)[0], evolved);
    assert_eq!(game.PlayerDeck().HandSize(), 5);
}

#[test]
fn playing_a_card_ends_the_turn() {
    let mut game = player_game();
    pass(&mut game);
    assert_eq!(game.Play(&line(&["play", "Xe", "A1"])), Step::Again);
    assert_eq!(last_line(&game), (String::from("Error: Invalid parameters."), true));
    let name = hand_names(&game)[0].clone();
    assert_eq!(game.Play(&line(&["play", name.as_str()])), Step::Again);
    assert_eq!(game.Play(&line(&["play", name.as_str(), "A9"])), Step::Again);
    assert_eq!(game.Play(&line(&["play", name.as_str(), "A1", "B1"])), Step::Again);
    assert_eq!(last_line(&game), (String::from("Error: Invalid parameters."), true));
    assert_eq!(game.GetPhase(), Phase::Main);
    assert_eq!(game.Play(&line(&["play", name.as_str(), "C3"])), Step::Done);
    assert_eq!(game.GetPhase(), Phase::Begin);
    assert!(!game.IsPlayerTurn());
    assert_eq!(game.TurnNumber(), 2);
    assert_eq!(game.PlayerDeck().HandSize(), 4);
    let root = game.Board().PeekTile((2, 2));
    assert_eq!(root.GetState(), TileState::Parent);
    assert_eq!(root.GetPresedence(), 1);
    assert_eq!(game.Board().ColorsLeft(), 19);
}

#[test]
fn playing_on_an_atom_is_logged() {
    let mut game = player_game();
    pass(&mut game);
    let name = hand_names(&game)[0].clone();
    assert_eq!(game.Play(&line(&["play", name.as_str(), "C3"])), Step::Done);
    assert_eq!(game.BeginTurn(), Step::Done);
    assert_eq!(game.BeginTurn(), Step::Done);
    pass(&mut game);
    let name = hand_names(&game)[0].clone();
    assert_eq!(game.Play(&line(&["play", name.as_str(), "C3"])), Step::Again);
    assert_eq!(last_line(&game), (String::from("Error: Selected space is occupied."), true));
    assert_eq!(game.GetPhase(), Phase::Main);
    assert_eq!(game.PlayerDeck().HandSize(), 5);
}

#[test]
fn computer_plays_on_the_first_zone_or_the_first_empty_tile() {
    let mut game = Game::StartWith(false);
    assert_eq!(game.BeginTurn(), Step::Done);
    assert_eq!(game.GetPhase(), Phase::Begin);
    assert!(game.IsPlayerTurn());
    assert_eq!(game.TurnNumber(), 2);
    assert_eq!(game.ComputerDeck().HandSize(), 4);
    assert_eq!(game.ComputerDeck().DeckSize(), 11);
    let root = game.Board().PeekTile((0, 0));
    assert_eq!(root.GetState(), TileState::Parent);
    assert_eq!(root.GetPresedence(), 1);
    assert_eq!(game.Board().PeekTile((0, 1)).GetState(), TileState::Bond);
}

#[test]
fn game_is_over_after_sixteen_turns() {
    let mut game = Game::StartWith(false);
    let mut turns = 0;
    while game.GetPhase() != Phase::Over {
        assert_eq!(game.GetPhase(), Phase::Begin);
        assert_eq!(game.TurnNumber(), turns + 1);
        let player_turn = game.IsPlayerTurn();
        assert_eq!(player_turn, turns % 2 == 1);
        assert_eq!(game.BeginTurn(), Step::Done);
        if player_turn {
            pass(&mut game);
            let mut played = false;
            let names = hand_names(&game);
            for x in ["F", "E", "D", "C", "B", "A"] {
                for y in ["6", "5", "4", "3", "2", "1"] {
                    for name in names.iter() {
                        let tile = format!("{}{}", x, y);
                        if !played
                            && game.Play(&line(&["play", name.as_str(), tile.as_str()]))
                                == Step::Done
                        {
                            played = true;
                        }
                    }
                }
            }
            assert!(played);
        }
        turns += 1;
    }
    assert_eq!(turns, 16);
    assert_eq!(game.TurnNumber(), 17);
    let mut ranks: Vec<u8> = Vec::new();
    for x in 0..6 {
        for y in 0..6 {
            let tile = game.Board().PeekTile((x, y));
            let state = tile.GetState();
            if state == TileState::Atom || state == TileState::Parent {
                let rank = tile.GetPresedence();
                assert!(rank >= 1 && rank <= 16);
                assert!(!ranks.contains(&rank));
                ranks.push(rank);
            }
        }
    }
    assert!(ranks.len() >= 8);
    assert_eq!(game.PlayerDeck().HandSize(), 4);
    assert_eq!(game.PlayerDeck().DeckSize(), 4);
    let log = game.Log();
    let mut found = false;
    for i in 0..log.Length() {
        if log.Line(i) == Some((String::from("Game over!"), false)) {
            found = true;
        }
    }
    assert!(found);
    game.DrawBoth();
    assert_eq!(game.PlayerDeck().HandSize(), 5);
    assert_eq!(game.PlayerDeck().DeckSize(), 3);
    game.Note("Error: Invalid command.", true);
    assert_eq!(last_line(&game), (String::from("Error: Invalid command."), true));
}

#[test]
fn result_names_the_winner_or_a_tie() {
    let tail = " Type \"start\" to play again. Type \"quit\" to exit the game.";
    assert_eq!(ResultText(10, 4), format!("Player wins!{}", tail));
    assert_eq!(ResultText(4, 4), format!("Its a tie!{}", tail));
    assert_eq!(ResultText(4, 10), format!("Its a tie!{}", tail));
}

#[test]
fn bare_commands_have_no_parameter() {
    assert!(IsBareCommand(&line(&["start"]), "start"));
    assert!(!IsBareCommand(&line(&["start", "now"]), "start"));
    assert!(!IsBareCommand(&line(&["quit"]), "start"));
    assert!(!IsBareCommand(&line(&["dance"]), "start"));
    assert!(IsWord(&Some(String::from("play")), "play"));
    assert!(!IsWord(&Some(String::from("play")), "pass"));
    assert!(!IsWord(&None, "play"));
}
