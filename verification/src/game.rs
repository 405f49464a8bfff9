//! A game of sixteen turns between the player and the computer: whose turn
//! it is, what a typed command does to the game, and how the computer
//! moves.

use crate::action_log::{ActionLog, LogEntry, pushed};
use crate::card_deck::{
    CardDeck, CardModel, DeckModel, first_named, index_named, lemma_first_named, none_named,
    starting_deck,
};
use crate::command::{CreateCoords, LineModel, create_coords, fields_view};
use crate::game_board::board_tile::{Color, Coord, tag_view};
use crate::game_board::color_picker::palette;
use crate::game_board::grid::{before, empty_grid, in_grid};
use crate::game_board::rules::{BoardModel, Play, attach, attach_fits, destroy, end_turn, restrict};
use crate::game_board::{GameBoard, play_of};
use crate::laws::{lemma_attach_ranked, lemma_ranked_grows, lemma_upkeep_ranked, ranked};
use crate::random::random_below;
use vstd::prelude::*;

verus! {

/// Where a game stands.
#[derive(Clone, Copy, Debug, PartialEq, Eq, Structural)]
pub enum Phase {
    /// A turn is about to begin.
    Begin,
    /// The player may use an ability or pass.
    Ability,
    /// The player must play an atom.
    Main,
    /// All turns are taken.
    Over,
}

/// What a step of the game came to.
#[derive(Clone, Copy, Debug, PartialEq, Eq, Structural)]
pub enum Step {
    /// The phase is finished.
    Done,
    /// The phase goes on: the input was turned down.
    Again,
    /// The move is beyond what the counters of the board or the scores can
    /// hold, or asks for a card that is not there.
    Halt,
}

/// The mathematical value of a game.
pub struct GameModel {
    pub board: BoardModel,
    pub log: Seq<LogEntry>,
    pub player: DeckModel,
    pub computer: DeckModel,
    pub player_score: u16,
    pub computer_score: u16,
    pub evolve_left: u8,
    pub destroy_left: u8,
    pub restrict_left: u8,
    /// The number of the turn, which is the precedence of the atoms played
    /// on it.
    pub turn_number: u8,
    pub turns_left: u8,
    pub player_turn: bool,
    pub phase: Phase,
}

/// The line of the log of a game that the player begins.
pub open spec fn msg_player_first() -> Seq<char> {
    "Player is going first."@
}

/// The line of the log of a game that the computer begins.
pub open spec fn msg_computer_first() -> Seq<char> {
    "Computer is going first."@
}

/// The line of the log of a restriction.
pub open spec fn msg_used_restrict() -> Seq<char> {
    "Player used restrict ability."@
}

/// The line of the log of the removal of a compound.
pub open spec fn msg_used_destroy() -> Seq<char> {
    "Player has destroyed a compound."@
}

/// The line of the log of an evolution.
pub open spec fn msg_used_evolve() -> Seq<char> {
    "Player has evolved an atom."@
}

/// The line of the log of an ability phase that was passed.
pub open spec fn msg_passed() -> Seq<char> {
    "Player has passed their ability phase."@
}

/// The line of the log of a command with the wrong parameters.
pub open spec fn msg_bad_parameters() -> Seq<char> {
    "Error: Invalid parameters."@
}

/// The line of the log of a line that holds no command of the phase.
pub open spec fn msg_bad_command() -> Seq<char> {
    "Error: Invalid command."@
}

/// The line of the log of a compound that the player completed.
pub open spec fn msg_player_completed() -> Seq<char> {
    "Player completed a compound!"@
}

/// The line of the log of a compound that the computer completed.
pub open spec fn msg_computer_completed() -> Seq<char> {
    "Computer completed a compound!"@
}

/// The line of the log of the end of the game.
pub open spec fn msg_game_over() -> Seq<char> {
    "Game over!"@
}

/// The cards after the card at `pick` of the deck has gone to the hand.
pub open spec fn one_dealt(cards: DeckModel, pick: int) -> DeckModel {
    DeckModel { deck: cards.deck.remove(pick), hand: cards.hand.push(cards.deck[pick]) }
}

/// The cards after the cards at `picks` have gone to the hand one after
/// the other.
pub open spec fn dealt(cards: DeckModel, picks: Seq<int>) -> DeckModel
    decreases picks.len(),
{
    if picks.len() == 0 {
        cards
    } else {
        one_dealt(dealt(cards, picks.drop_last()), picks.last())
    }
}

/// Whether each of `picks` names a card that is in the deck when it is
/// dealt.
pub open spec fn deal_valid(cards: DeckModel, picks: Seq<int>) -> bool
    decreases picks.len(),
{
    picks.len() > 0 ==> deal_valid(cards, picks.drop_last()) && 0 <= picks.last() < dealt(
        cards,
        picks.drop_last(),
    ).deck.len()
}

/// The cards of a player who has drawn nothing yet.
pub open spec fn fresh_cards() -> DeckModel {
    DeckModel { deck: starting_deck(), hand: Seq::empty() }
}

/// The atom that a card puts on the board on the turn `turn`.
pub open spec fn card_play(card: CardModel, turn: u8) -> Play {
    play_of(card.symbol, card.number_of_bonds, card.is_metal, turn, card.atomic_number)
}

/// The hand without its first card named `name`.
pub open spec fn without_card(hand: Seq<CardModel>, name: Seq<char>) -> Seq<CardModel> {
    if none_named(hand, name) {
        hand
    } else {
        hand.remove(index_named(hand, name))
    }
}

impl GameModel {
    /// The turns that are taken and the turns that are left make sixteen,
    /// and the game is over when none is left.
    pub open spec fn counts_ok(self) -> bool {
        &&& self.turn_number + self.turns_left == 17
        &&& self.phase is Over <==> self.turns_left == 0
    }

    /// The game with one more line in its log.
    pub open spec fn logged(self, text: Seq<char>, is_error: bool) -> GameModel {
        GameModel { log: pushed(self.log, (LogEntry { text, is_error })), ..self }
    }

    /// The game after the upkeep that ends a turn: the other side is to
    /// move, or the game is over.
    pub open spec fn turn_ended(self) -> GameModel
        recommends
            self.turns_left > 0,
    {
        let next = GameModel {
            board: BoardModel { tiles: end_turn(self.board.tiles), palette: self.board.palette },
            turn_number: (self.turn_number + 1) as u8,
            turns_left: (self.turns_left - 1) as u8,
            player_turn: !self.player_turn,
            phase: if self.turns_left == 1 {
                Phase::Over
            } else {
                Phase::Begin
            },
            ..self
        };
        if self.turns_left == 1 {
            next.logged(msg_game_over(), false)
        } else {
            next
        }
    }
}

/// A game that is about to begin.
pub open spec fn new_game(
    player: DeckModel,
    computer: DeckModel,
    player_first: bool,
    palette: Seq<Color>,
) -> GameModel {
    GameModel {
        board: BoardModel { tiles: empty_grid(), palette },
        log: Seq::<LogEntry>::empty(),
        player,
        computer,
        player_score: 0,
        computer_score: 0,
        evolve_left: 1,
        destroy_left: 1,
        restrict_left: 2,
        turn_number: 1,
        turns_left: 16,
        player_turn: player_first,
        phase: Phase::Begin,
    }.logged(
        if player_first {
            msg_player_first()
        } else {
            msg_computer_first()
        },
        false,
    )
}

/// What a line of input does in the ability phase, and whether it ends
/// the phase. An ability that is used up is no command any more.
pub open spec fn ability(g: GameModel, line: LineModel) -> (GameModel, bool) {
    if line.command == Some("restrict"@) && g.restrict_left > 0 {
        if line.first is Some && line.second is Some && line.third is None && create_coords(
            line.first->0,
        ).0 && create_coords(line.second->0).0 {
            let done = restrict(
                g.board.tiles,
                create_coords(line.first->0).1,
                create_coords(line.second->0).1,
            );
            match done.1.error {
                Some(message) => (g.logged(message, true), false),
                None => (
                    GameModel {
                        board: BoardModel { tiles: done.0, palette: g.board.palette },
                        restrict_left: (g.restrict_left - 1) as u8,
                        ..g
                    }.logged(msg_used_restrict(), false),
                    true,
                ),
            }
        } else {
            (g.logged(msg_bad_parameters(), true), false)
        }
    } else if line.command == Some("destroy"@) && g.destroy_left > 0 {
        if line.first is Some && line.second is None && create_coords(line.first->0).0 {
            let done = destroy(g.board.tiles, create_coords(line.first->0).1);
            match done.1.error {
                Some(message) => (g.logged(message, true), false),
                None => (
                    GameModel {
                        board: BoardModel { tiles: done.0, palette: g.board.palette },
                        destroy_left: (g.destroy_left - 1) as u8,
                        ..g
                    }.logged(msg_used_destroy(), false),
                    true,
                ),
            }
        } else {
            (g.logged(msg_bad_parameters(), true), false)
        }
    } else if line.command == Some("evolve"@) && g.evolve_left > 0 {
        if line.first is Some && line.second is None && !none_named(g.player.hand, line.first->0) {
            let index = index_named(g.player.hand, line.first->0);
            (
                GameModel {
                    player: DeckModel {
                        deck: g.player.deck,
                        hand: g.player.hand.update(index, g.player.hand[index].evolved()),
                    },
                    evolve_left: (g.evolve_left - 1) as u8,
                    ..g
                }.logged(msg_used_evolve(), false),
                true,
            )
        } else {
            (g.logged(msg_bad_parameters(), true), false)
        }
    } else if line.command == Some("pass"@) {
        (g.logged(msg_passed(), false), true)
    } else {
        (g.logged(msg_bad_command(), true), false)
    }
}

/// Whether a line of input in the main phase names a card of the hand and
/// a tile.
pub open spec fn names_a_play(g: GameModel, line: LineModel) -> bool {
    &&& line.command == Some("play"@)
    &&& line.first is Some
    &&& line.second is Some
    &&& line.third is None
    &&& !none_named(g.player.hand, line.first->0)
    &&& create_coords(line.second->0).0
}

/// What a line of input does in the main phase, where `pick` is the place
/// in the palette of the colour of a new root: an atom that the board
/// accepts ends the turn, its card leaves the hand, and the points of a
/// compound that it completes go to the player.
pub open spec fn played(g: GameModel, line: LineModel, pick: int) -> (GameModel, Step) {
    if names_a_play(g, line) {
        let name = line.first->0;
        let card = g.player.hand[index_named(g.player.hand, name)];
        let coords = create_coords(line.second->0).1;
        if !attach_fits(g.board, coords, card_play(card, g.turn_number)) {
            (g, Step::Halt)
        } else {
            let done = attach(g.board, coords, card_play(card, g.turn_number), pick);
            let after = GameModel {
                board: done.0,
                player: DeckModel {
                    deck: g.player.deck,
                    hand: without_card(g.player.hand, name),
                },
                ..g
            };
            match done.1.error {
                Some(message) => (g.logged(message, true), Step::Again),
                None => match done.1.points {
                    Some(points) => if g.player_score + points > u16::MAX {
                        (GameModel { board: done.0, ..g }, Step::Halt)
                    } else {
                        (
                            GameModel {
                                player_score: (g.player_score + points) as u16,
                                ..after.logged(msg_player_completed(), false)
                            }.turn_ended(),
                            Step::Done,
                        )
                    },
                    None => (after.turn_ended(), Step::Done),
                },
            }
        }
    } else if line.command == Some("play"@) {
        (g.logged(msg_bad_parameters(), true), Step::Again)
    } else {
        (g.logged(msg_bad_command(), true), Step::Again)
    }
}

/// The first bond zone in the order of a sweep, if there is one.
pub open spec fn first_zone(board: BoardModel) -> Option<Coord> {
    if exists|c: Coord| in_grid(c) && board.tiles[c].cell is Bond {
        Some(
            choose|c: Coord|
                in_grid(c) && board.tiles[c].cell is Bond && forall|z: Coord|
                    in_grid(z) && before(z, c) ==> !((#[trigger] board.tiles[z]).cell is Bond),
        )
    } else {
        None
    }
}

/// The first empty tile in the order of a sweep; the first tile of the
/// grid when no tile is empty.
pub open spec fn first_empty(board: BoardModel) -> Coord {
    if exists|c: Coord| in_grid(c) && board.tiles[c].cell is Empty {
        choose|c: Coord|
            in_grid(c) && board.tiles[c].cell is Empty && forall|z: Coord|
                in_grid(z) && before(z, c) ==> !((#[trigger] board.tiles[z]).cell is Empty)
    } else {
        (0usize, 0usize)
    }
}

/// The computer's move on the zone at `zone`: it tries the first five
/// cards of its hand in their order and plays the first that the board
/// accepts; `from` is the card it has come to.
pub open spec fn scanned(g: GameModel, zone: Coord, from: int) -> (GameModel, Step)
    decreases 5 - from,
{
    if from >= 5 {
        (g, Step::Done)
    } else if from < 0 || from >= g.computer.hand.len() {
        (g, Step::Halt)
    } else {
        let card = g.computer.hand[from];
        if !attach_fits(g.board, zone, card_play(card, g.turn_number)) {
            (g, Step::Halt)
        } else {
            let done = attach(g.board, zone, card_play(card, g.turn_number), 0);
            if done.1.error is Some {
                scanned(g, zone, from + 1)
            } else {
                let after = GameModel {
                    board: done.0,
                    computer: DeckModel {
                        deck: g.computer.deck,
                        hand: without_card(g.computer.hand, card.name),
                    },
                    ..g
                };
                match done.1.points {
                    Some(points) => if g.computer_score + points > u16::MAX {
                        (GameModel { board: done.0, ..g }, Step::Halt)
                    } else {
                        (
                            GameModel {
                                computer_score: (g.computer_score + points) as u16,
                                ..after.logged(msg_computer_completed(), false)
                            },
                            Step::Done,
                        )
                    },
                    None => (after, Step::Done),
                }
            }
        }
    }
}

/// The computer's move where the board shows no zone: the first card of
/// its hand goes on the first empty tile, in the colour at `pick` of the
/// palette. The card leaves the hand even where the board turns it down.
pub open spec fn opened(g: GameModel, pick: int) -> (GameModel, Step) {
    if g.computer.hand.len() == 0 {
        (g, Step::Halt)
    } else {
        let card = g.computer.hand[0];
        let tile = first_empty(g.board);
        if !attach_fits(g.board, tile, card_play(card, g.turn_number)) {
            (g, Step::Halt)
        } else {
            (
                GameModel {
                    board: attach(g.board, tile, card_play(card, g.turn_number), pick).0,
                    computer: DeckModel {
                        deck: g.computer.deck,
                        hand: without_card(g.computer.hand, card.name),
                    },
                    ..g
                },
                Step::Done,
            )
        }
    }
}

/// The computer's move: on the first zone of the board if there is one,
/// else on the first empty tile.
pub open spec fn computer_moved(g: GameModel, pick: int) -> (GameModel, Step) {
    match first_zone(g.board) {
        Some(zone) => scanned(g, zone, 0),
        None => opened(g, pick),
    }
}

/// The game once a move of the computer has come to `step`: a move that
/// was carried out ends the turn.
pub open spec fn computer_done(moved: (GameModel, Step)) -> (GameModel, Step) {
    if moved.1 is Done {
        (moved.0.turn_ended(), Step::Done)
    } else {
        moved
    }
}

/// The computer's turn: it draws the card at `card` of its deck, moves,
/// and its turn ends.
pub open spec fn computer_turn(g: GameModel, card: int, pick: int) -> (GameModel, Step) {
    computer_done(computer_moved(GameModel { computer: drew(g.computer, card), ..g }, pick))
}

/// How a game that is over is announced. A game that the player has not
/// won is announced as a tie.
pub open spec fn result_text(player: u16, computer: u16) -> Seq<char> {
    if player > computer {
        "Player wins! Type \"start\" to play again. Type \"quit\" to exit the game."@
    } else {
        "Its a tie! Type \"start\" to play again. Type \"quit\" to exit the game."@
    }
}

/// Announces a game that is over.
pub fn ResultText(player: u16, computer: u16) -> (text: String)
    ensures
        text@ == result_text(player, computer),
{
    if player > computer {
        "Player wins! Type \"start\" to play again. Type \"quit\" to exit the game.".to_owned()
    } else {
        "Its a tie! Type \"start\" to play again. Type \"quit\" to exit the game.".to_owned()
    }
}

/// Whether a field of a line holds the word `word`.
pub fn IsWord(field: &Option<String>, word: &str) -> (same: bool)
    ensures
        same == (tag_view(*field) == Some(word@)),
{
    match field {
        Some(text) => *text == word.to_owned(),
        None => false,
    }
}

/// Whether a line holds the command `word` and nothing after it.
pub fn IsBareCommand(
    fields: &(Option<String>, (Option<String>, Option<String>, Option<String>)),
    word: &str,
) -> (bare: bool)
    ensures
        bare == (fields_view(*fields).command == Some(word@) && fields_view(*fields).first
            is None),
{
    IsWord(&fields.0, word) && fields.1.0.is_none()
}

/// The cards after a draw: the card at `pick` of the deck goes to the
/// hand, and nothing happens where the deck is empty.
pub open spec fn drew(cards: DeckModel, pick: int) -> DeckModel {
    if cards.deck.len() == 0 {
        cards
    } else {
        one_dealt(cards, pick)
    }
}

/// Whether `pick` names a card of the deck, where the deck has one.
pub open spec fn draw_ok(cards: DeckModel, pick: int) -> bool {
    cards.deck.len() > 0 ==> 0 <= pick < cards.deck.len()
}

/// Whether `pick` names a colour of the palette, where the palette has
/// one.
pub open spec fn pick_ok(board: BoardModel, pick: int) -> bool {
    board.palette.len() > 0 ==> 0 <= pick < board.palette.len()
}

/// What a line of input does in the ability phase: a command that is
/// carried out leads to the main phase.
pub open spec fn ability_step(g: GameModel, line: LineModel) -> (GameModel, Step) {
    if ability(g, line).1 {
        (GameModel { phase: Phase::Main, ..ability(g, line).0 }, Step::Done)
    } else {
        (ability(g, line).0, Step::Again)
    }
}

/// A game between the player and the computer.
pub struct Game {
    board: GameBoard,
    log: ActionLog,
    player_deck: CardDeck,
    computer_deck: CardDeck,
    player_score: u16,
    computer_score: u16,
    player_evolve: u8,
    player_destroy: u8,
    player_restrict: u8,
    turn_number: u8,
    turns_left: u8,
    player_turn: bool,
    phase: Phase,
}

impl View for Game {
    type V = GameModel;

    closed spec fn view(&self) -> GameModel {
        GameModel {
            board: self.board@,
            log: self.log@,
            player: self.player_deck@,
            computer: self.computer_deck@,
            player_score: self.player_score,
            computer_score: self.computer_score,
            evolve_left: self.player_evolve,
            destroy_left: self.player_destroy,
            restrict_left: self.player_restrict,
            turn_number: self.turn_number,
            turns_left: self.turns_left,
            player_turn: self.player_turn,
            phase: self.phase,
        }
    }
}

/// The text of a field that holds one.
fn text_of(field: &Option<String>) -> (text: String)
    requires
        field is Some,
    ensures
        Some(text@) == tag_view(*field),
{
    match field {
        Some(text) => text.clone(),
        None => String::new(),
    }
}

/// Lets a side draw a card; the result is the place the card had in the
/// deck.
fn draw(cards: &mut CardDeck) -> (pick: Ghost<int>)
    ensures
        draw_ok(old(cards)@, pick@),
        final(cards)@ == drew(old(cards)@, pick@),
{
    let ghost before = cards@;
    cards.AddToHand();
    Ghost(
        if before.deck.len() == 0 {
            0
        } else {
            choose|index: int|
                0 <= index < before.deck.len() && cards@.deck == before.deck.remove(index)
                    && cards@.hand == before.hand.push(before.deck[index])
        },
    )
}

impl Game {
    /// What holds of a game between its steps: the board and the log are
    /// sound, the turns are counted rightly, and every atom on the board
    /// was placed on an earlier turn, no two on the same.
    pub closed spec fn wf(&self) -> bool {
        &&& self.board.wf()
        &&& self.log.wf()
        &&& self@.counts_ok()
        &&& ranked(self@.board.tiles, self.turn_number as int)
    }

    /// What holds of a game when the move of a turn is made and the turn
    /// is not ended yet.
    closed spec fn moved(&self) -> bool {
        &&& self.board.wf()
        &&& self.log.wf()
        &&& self@.counts_ok()
        &&& ranked(self@.board.tiles, self.turn_number + 1)
    }

    /// A well-formed game counts its turns rightly and keeps the
    /// precedences of its atoms apart.
    pub proof fn lemma_wf(&self)
        requires
            self.wf(),
        ensures
            self@.counts_ok(),
            ranked(self@.board.tiles, self@.turn_number as int),
    {
    }

    /// Puts a line at the end of the log.
    fn note(&mut self, text: &str, is_error: bool)
        requires
            old(self).log.wf(),
        ensures
            final(self).log.wf(),
            final(self)@ == old(self)@.logged(text@, is_error),
            final(self).board == old(self).board,
            final(self).turn_number == old(self).turn_number,
    {
        self.log.PushAction(text.to_owned(), is_error);
    }

    /// Puts a line at the end of the game's log.
    pub fn Note(&mut self, text: &str, is_error: bool)
        requires
            old(self).wf(),
        ensures
            final(self).wf(),
            final(self)@ == old(self)@.logged(text@, is_error),
    {
        self.note(text, is_error);
    }

    /// Begins a game in which the player moves first or second as
    /// `player_first` says: each side draws four cards of its own deck.
    pub fn StartWith(player_first: bool) -> (game: Game)
        ensures
            game.wf(),
            exists|player_picks: Seq<int>, computer_picks: Seq<int>|
                player_picks.len() == 4 && computer_picks.len() == 4 && deal_valid(
                    fresh_cards(),
                    player_picks,
                ) && deal_valid(fresh_cards(), computer_picks) && game@ == #[trigger] new_game(
                    dealt(fresh_cards(), player_picks),
                    dealt(fresh_cards(), computer_picks),
                    player_first,
                    palette(),
                ),
    {
        let mut game = Game {
            board: GameBoard::default(),
            log: ActionLog::default(),
            player_deck: CardDeck::default(),
            computer_deck: CardDeck::default(),
            player_score: 0,
            computer_score: 0,
            player_evolve: 1,
            player_destroy: 1,
            player_restrict: 2,
            turn_number: 1,
            turns_left: 16,
            player_turn: player_first,
            phase: Phase::Begin,
        };
        let ghost start = game@;
        let ghost mut player_picks = Seq::<int>::empty();
        let ghost mut computer_picks = Seq::<int>::empty();
        let mut i: usize = 0;
        while i < 4
            invariant
                i <= 4,
                player_picks.len() == i,
                computer_picks.len() == i,
                deal_valid(fresh_cards(), player_picks),
                deal_valid(fresh_cards(), computer_picks),
                game.player_deck@ == dealt(fresh_cards(), player_picks),
                game.computer_deck@ == dealt(fresh_cards(), computer_picks),
                game.player_deck@.deck.len() == 16 - i,
                game.computer_deck@.deck.len() == 16 - i,
                game@ == (GameModel {
                    player: game.player_deck@,
                    computer: game.computer_deck@,
                    ..start
                }),
                game.board.wf(),
                game.log.wf(),
            decreases 4 - i,
        {
            let ghost earlier_player = player_picks;
            let ghost earlier_computer = computer_picks;
            let Ghost(p) = draw(&mut game.player_deck);
            let Ghost(c) = draw(&mut game.computer_deck);
            proof {
                player_picks = earlier_player.push(p);
                computer_picks = earlier_computer.push(c);
                assert(player_picks.drop_last() =~= earlier_player);
                assert(computer_picks.drop_last() =~= earlier_computer);
                dealt(fresh_cards(), earlier_player).deck.remove_ensures(p);
                dealt(fresh_cards(), earlier_computer).deck.remove_ensures(c);
            }
            i = i + 1;
        }
        if player_first {
            game.note("Player is going first.", false);
        } else {
            game.note("Computer is going first.", false);
        }
        proof {
            lemma_ranked_grows(empty_grid(), 1, 1);
        }
        assert(game@ == new_game(
            dealt(fresh_cards(), player_picks),
            dealt(fresh_cards(), computer_picks),
            player_first,
            palette(),
        ));
        game
    }

    /// Begins a game; chance says who moves first.
    pub fn Start() -> (game: Game)
        ensures
            game.wf(),
            exists|player_first: bool, player_picks: Seq<int>, computer_picks: Seq<int>|
                player_picks.len() == 4 && computer_picks.len() == 4 && deal_valid(
                    fresh_cards(),
                    player_picks,
                ) && deal_valid(fresh_cards(), computer_picks) && game@ == #[trigger] new_game(
                    dealt(fresh_cards(), player_picks),
                    dealt(fresh_cards(), computer_picks),
                    player_first,
                    palette(),
                ),
    {
        let coin = random_below(2);
        Self::StartWith(coin == 0)
    }

    /// The board of the game.
    pub fn Board(&self) -> (board: &GameBoard)
        requires
            self.wf(),
        ensures
            board@ == self@.board,
            board.wf(),
    {
        &self.board
    }

    /// The log of the game.
    pub fn Log(&self) -> (log: &ActionLog)
        requires
            self.wf(),
        ensures
            log@ == self@.log,
            log.wf(),
    {
        &self.log
    }

    /// The cards of the player.
    pub fn PlayerDeck(&self) -> (cards: &CardDeck)
        ensures
            cards@ == self@.player,
    {
        &self.player_deck
    }

    /// The cards of the computer.
    pub fn ComputerDeck(&self) -> (cards: &CardDeck)
        ensures
            cards@ == self@.computer,
    {
        &self.computer_deck
    }

    /// The points of the player.
    pub fn PlayerScore(&self) -> (score: u16)
        ensures
            score == self@.player_score,
    {
        self.player_score
    }

    /// The points of the computer.
    pub fn ComputerScore(&self) -> (score: u16)
        ensures
            score == self@.computer_score,
    {
        self.computer_score
    }

    /// How often the player may still evolve, destroy and restrict.
    pub fn Abilities(&self) -> (left: (u8, u8, u8))
        ensures
            left == (self@.evolve_left, self@.destroy_left, self@.restrict_left),
    {
        (self.player_evolve, self.player_destroy, self.player_restrict)
    }

    /// Where the game stands.
    pub fn GetPhase(&self) -> (phase: Phase)
        ensures
            phase == self@.phase,
    {
        self.phase
    }

    /// Whether the turn is the player's.
    pub fn IsPlayerTurn(&self) -> (player_turn: bool)
        ensures
            player_turn == self@.player_turn,
    {
        self.player_turn
    }

    /// The number of the turn, from 1.
    pub fn TurnNumber(&self) -> (turn: u8)
        ensures
            turn == self@.turn_number,
    {
        self.turn_number
    }

    /// The upkeep that ends a turn.
    fn finish_turn(&mut self)
        requires
            old(self).moved(),
            old(self)@.turns_left > 0,
        ensures
            final(self).wf(),
            final(self)@ == old(self)@.turn_ended(),
    {
        proof {
            lemma_upkeep_ranked(self@.board.tiles, (0, 0), (0, 0), self.turn_number + 1);
        }
        self.board.EndTurn();
        self.player_turn = !self.player_turn;
        self.turn_number = self.turn_number + 1;
        self.turns_left = self.turns_left - 1;
        if self.turns_left == 0 {
            self.phase = Phase::Over;
            self.note("Game over!", false);
        } else {
            self.phase = Phase::Begin;
        }
    }

    /// Handles a line of input in the ability phase.
    pub fn Ability(
        &mut self,
        fields: &(Option<String>, (Option<String>, Option<String>, Option<String>)),
    ) -> (step: Step)
        requires
            old(self).wf(),
            old(self)@.phase is Ability,
        ensures
            final(self).wf(),
            (final(self)@, step) == ability_step(old(self)@, fields_view(*fields)),
    {
        if IsWord(&fields.0, "restrict") && self.player_restrict > 0 {
            if fields.1.0.is_some() && fields.1.1.is_some() && fields.1.2.is_none() {
                let first = CreateCoords(text_of(&fields.1.0));
                let second = CreateCoords(text_of(&fields.1.1));
                if first.0 && second.0 {
                    proof {
                        lemma_upkeep_ranked(
                            self@.board.tiles,
                            first.1,
                            second.1,
                            self.turn_number as int,
                        );
                    }
                    let status = self.board.Restrict(first.1, second.1);
                    match status.error_message {
                        Some(message) => {
                            self.log.PushAction(message, true);
                            return Step::Again;
                        },
                        None => {
                            self.note("Player used restrict ability.", false);
                            self.player_restrict = self.player_restrict - 1;
                            self.phase = Phase::Main;
                            return Step::Done;
                        },
                    }
                }
            }
            self.note("Error: Invalid parameters.", true);
            Step::Again
        } else if IsWord(&fields.0, "destroy") && self.player_destroy > 0 {
            if fields.1.0.is_some() && fields.1.1.is_none() {
                let coords = CreateCoords(text_of(&fields.1.0));
                if coords.0 {
                    proof {
                        lemma_upkeep_ranked(
                            self@.board.tiles,
                            coords.1,
                            coords.1,
                            self.turn_number as int,
                        );
                    }
                    let status = self.board.Destroy(coords.1);
                    match status.error_message {
                        Some(message) => {
                            self.log.PushAction(message, true);
                            return Step::Again;
                        },
                        None => {
                            self.note("Player has destroyed a compound.", false);
                            self.player_destroy = self.player_destroy - 1;
                            self.phase = Phase::Main;
                            return Step::Done;
                        },
                    }
                }
            }
            self.note("Error: Invalid parameters.", true);
            Step::Again
        } else if IsWord(&fields.0, "evolve") && self.player_evolve > 0 {
            if fields.1.0.is_some() && fields.1.1.is_none() {
                let name = text_of(&fields.1.0);
                let ghost hand = self@.player.hand;
                if self.player_deck.EvolveCard(name) {
                    proof {
                        let index = choose|index: int|
                            first_named(hand, name@, index) && self@.player.hand == hand.update(
                                index,
                                hand[index].evolved(),
                            );
                        lemma_first_named(hand, name@, index);
                    }
                    self.note("Player has evolved an atom.", false);
                    self.player_evolve = self.player_evolve - 1;
                    self.phase = Phase::Main;
                    return Step::Done;
                }
            }
            self.note("Error: Invalid parameters.", true);
            Step::Again
        } else if IsWord(&fields.0, "pass") {
            self.note("Player has passed their ability phase.", false);
            self.phase = Phase::Main;
            Step::Done
        } else {
            self.note("Error: Invalid command.", true);
            Step::Again
        }
    }
}

/// The first bond zone of a board is the zone that no zone comes before.
proof fn lemma_first_zone(board: BoardModel, c: Coord)
    requires
        in_grid(c),
        board.tiles[c].cell is Bond,
        forall|z: Coord| in_grid(z) && before(z, c) ==> !((#[trigger] board.tiles[z]).cell is Bond),
    ensures
        first_zone(board) == Some(c),
{
    let found = first_zone(board)->0;
    if before(found, c) {
        assert(!(board.tiles[found].cell is Bond));
    }
    if before(c, found) {
        assert(!(board.tiles[c].cell is Bond));
    }
}

/// The first empty tile of a board is the empty tile that no empty tile
/// comes before.
proof fn lemma_first_empty(board: BoardModel, c: Coord)
    requires
        in_grid(c),
        board.tiles[c].cell is Empty,
        forall|z: Coord|
            in_grid(z) && before(z, c) ==> !((#[trigger] board.tiles[z]).cell is Empty),
    ensures
        first_empty(board) == c,
{
    let found = first_empty(board);
    if before(found, c) {
        assert(!(board.tiles[found].cell is Empty));
    }
    if before(c, found) {
        assert(!(board.tiles[c].cell is Empty));
    }
}

impl Game {
    /// Handles a line of input in the main phase.
    pub fn Play(
        &mut self,
        fields: &(Option<String>, (Option<String>, Option<String>, Option<String>)),
    ) -> (step: Step)
        requires
            old(self).wf(),
            old(self)@.phase is Main,
        ensures
            step is Halt || final(self).wf(),
            exists|pick: int|
                pick_ok(old(self)@.board, pick) && (final(self)@, step) == #[trigger] played(
                    old(self)@,
                    fields_view(*fields),
                    pick,
                ),
    {
        let ghost g = self@;
        let ghost line = fields_view(*fields);
        if !IsWord(&fields.0, "play") {
            self.note("Error: Invalid command.", true);
            assert((self@, Step::Again) == played(g, line, 0));
            return Step::Again;
        }
        if fields.1.0.is_some() && fields.1.1.is_some() && fields.1.2.is_none() {
            let name = text_of(&fields.1.0);
            let coords_return = CreateCoords(text_of(&fields.1.1));
            match self.player_deck.GetCard(name.clone()) {
                Some(card) => {
                    if coords_return.0 {
                        proof {
                            let index = choose|index: int|
                                first_named(g.player.hand, name@, index) && card@
                                    == g.player.hand[index];
                            lemma_first_named(g.player.hand, name@, index);
                        }
                        let ghost atom = card_play(card@, g.turn_number);
                        if !self.board.BondFits(
                            coords_return.1,
                            &card.symbol,
                            card.number_of_bonds,
                            card.is_metal,
                            card.atomic_number,
                        ) {
                            assert((self@, Step::Halt) == played(g, line, 0));
                            return Step::Halt;
                        }
                        let status = self.board.Bond(
                            coords_return.1,
                            card.symbol.clone(),
                            card.number_of_bonds,
                            card.is_metal,
                            self.turn_number,
                            card.atomic_number,
                        );
                        let ghost pick = if g.board.tiles[coords_return.1].cell is Empty {
                            choose|pick: int|
                                0 <= pick < g.board.palette.len() && (self.board@, status@)
                                    == attach(g.board, coords_return.1, atom, pick)
                        } else {
                            0
                        };
                        assert((self.board@, status@) == attach(
                            g.board,
                            coords_return.1,
                            atom,
                            pick,
                        ));
                        proof {
                            lemma_attach_ranked(g.board, coords_return.1, atom, pick);
                        }
                        match status.error_message {
                            Some(message) => {
                                self.log.PushAction(message, true);
                                assert((self@, Step::Again) == played(g, line, pick));
                                return Step::Again;
                            },
                            None => {},
                        }
                        match status.points {
                            Some(points) => {
                                if points > u16::MAX - self.player_score {
                                    assert((self@, Step::Halt) == played(g, line, pick));
                                    return Step::Halt;
                                }
                                self.note("Player completed a compound!", false);
                                self.player_score = self.player_score + points;
                            },
                            None => {},
                        }
                        self.player_deck.RemoveCard(name);
                        proof {
                            if !none_named(g.player.hand, name@) {
                                let index = choose|index: int|
                                    first_named(g.player.hand, name@, index) && self@.player.hand
                                        == g.player.hand.remove(index);
                                lemma_first_named(g.player.hand, name@, index);
                            }
                        }
                        self.finish_turn();
                        assert((self@, Step::Done) == played(g, line, pick));
                        return Step::Done;
                    }
                },
                None => {},
            }
        }
        self.note("Error: Invalid parameters.", true);
        assert((self@, Step::Again) == played(g, line, 0));
        Step::Again
    }

    /// The computer tries the card at `index` of its hand on the zone at
    /// `zone`: `None` where the board turns the card down.
    fn try_card(&mut self, zone: Coord, index: usize) -> (tried: Option<Step>)
        requires
            old(self).wf(),
            in_grid(zone),
            old(self)@.board.tiles[zone].cell is Bond,
            index < 5,
        ensures
            final(self).turns_left == old(self).turns_left,
            match tried {
                None => final(self)@ == old(self)@ && final(self).wf() && scanned(
                    old(self)@,
                    zone,
                    index as int,
                ) == scanned(old(self)@, zone, index + 1),
                Some(step) => (final(self)@, step) == scanned(old(self)@, zone, index as int) && (
                step is Done || step is Halt) && (step is Done ==> final(self).moved()),
            },
    {
        let ghost g = self@;
        if index >= self.computer_deck.HandSize() {
            return Some(Step::Halt);
        }
        let card = self.computer_deck.GetFromIndex(index);
        let ghost atom = card_play(card@, g.turn_number);
        if !self.board.BondFits(
            zone,
            &card.symbol,
            card.number_of_bonds,
            card.is_metal,
            card.atomic_number,
        ) {
            return Some(Step::Halt);
        }
        let status = self.board.Bond(
            zone,
            card.symbol.clone(),
            card.number_of_bonds,
            card.is_metal,
            self.turn_number,
            card.atomic_number,
        );
        assert((self.board@, status@) == attach(g.board, zone, atom, 0));
        if status.error_message.is_some() {
            return None;
        }
        proof {
            lemma_attach_ranked(g.board, zone, atom, 0);
        }
        match status.points {
            Some(points) => {
                if points > u16::MAX - self.computer_score {
                    return Some(Step::Halt);
                }
                self.note("Computer completed a compound!", false);
                self.computer_score = self.computer_score + points;
            },
            None => {},
        }
        self.computer_deck.RemoveCard(card.name.clone());
        proof {
            if !none_named(g.computer.hand, card@.name) {
                let index = choose|index: int|
                    first_named(g.computer.hand, card@.name, index) && self@.computer.hand
                        == g.computer.hand.remove(index);
                lemma_first_named(g.computer.hand, card@.name, index);
            }
        }
        Some(Step::Done)
    }

    /// The computer's move, without the upkeep that ends its turn.
    fn computer_move(&mut self) -> (moved: (Step, Ghost<int>))
        requires
            old(self).wf(),
        ensures
            moved.0 is Done || moved.0 is Halt,
            moved.0 is Done ==> final(self).moved(),
            pick_ok(old(self)@.board, moved.1@),
            (final(self)@, moved.0) == computer_moved(old(self)@, moved.1@),
            final(self).turns_left == old(self).turns_left,
    {
        let ghost g = self@;
        match self.board.FindBondZone() {
            Some(zone) => {
                proof {
                    lemma_first_zone(g.board, zone);
                }
                let mut i: usize = 0;
                while i < 5
                    invariant
                        i <= 5,
                        self.wf(),
                        self@ == g,
                        g == old(self)@,
                        self.turns_left == old(self).turns_left,
                        in_grid(zone),
                        g.board.tiles[zone].cell is Bond,
                        first_zone(g.board) == Some(zone),
                        scanned(g, zone, i as int) == scanned(g, zone, 0),
                    decreases 5 - i,
                {
                    match self.try_card(zone, i) {
                        Some(step) => {
                            return (step, Ghost(0));
                        },
                        None => {},
                    }
                    i = i + 1;
                }
                proof {
                    lemma_ranked_grows(g.board.tiles, g.turn_number as int, g.turn_number + 1);
                }
                (Step::Done, Ghost(0))
            },
            None => {
                assert(first_zone(g.board) is None);
                let empty_tile = self.board.FindEmptyZone();
                proof {
                    if g.board.tiles[empty_tile].cell is Empty {
                        lemma_first_empty(g.board, empty_tile);
                    }
                }
                if self.computer_deck.HandSize() == 0 {
                    return (Step::Halt, Ghost(0));
                }
                let card = self.computer_deck.GetFromIndex(0);
                let ghost atom = card_play(card@, g.turn_number);
                if !self.board.BondFits(
                    empty_tile,
                    &card.symbol,
                    card.number_of_bonds,
                    card.is_metal,
                    card.atomic_number,
                ) {
                    return (Step::Halt, Ghost(0));
                }
                let status = self.board.Bond(
                    empty_tile,
                    card.symbol.clone(),
                    card.number_of_bonds,
                    card.is_metal,
                    self.turn_number,
                    card.atomic_number,
                );
                let ghost pick = if g.board.tiles[empty_tile].cell is Empty {
                    choose|pick: int|
                        0 <= pick < g.board.palette.len() && (self.board@, status@) == attach(
                            g.board,
                            empty_tile,
                            atom,
                            pick,
                        )
                } else {
                    0
                };
                assert((self.board@, status@) == attach(g.board, empty_tile, atom, pick));
                proof {
                    lemma_attach_ranked(g.board, empty_tile, atom, pick);
                }
                self.computer_deck.RemoveCard(card.name.clone());
                proof {
                    if !none_named(g.computer.hand, card@.name) {
                        let index = choose|index: int|
                            first_named(g.computer.hand, card@.name, index) && self@.computer.hand
                                == g.computer.hand.remove(index);
                        lemma_first_named(g.computer.hand, card@.name, index);
                    }
                }
                (Step::Done, Ghost(pick))
            },
        }
    }

    /// The computer's turn: it draws a card and moves, and its turn ends.
    fn computer_turn(&mut self) -> (turn: (Step, Ghost<int>, Ghost<int>))
        requires
            old(self).wf(),
            old(self)@.turns_left > 0,
        ensures
            turn.0 is Halt || final(self).wf(),
            draw_ok(old(self)@.computer, turn.1@),
            pick_ok(old(self)@.board, turn.2@),
            (final(self)@, turn.0) == self::computer_turn(old(self)@, turn.1@, turn.2@),
    {
        let Ghost(card) = draw(&mut self.computer_deck);
        let ghost drawn = self@;
        assert(drawn == (GameModel {
            computer: drew(old(self)@.computer, card),
            ..old(self)@
        }));
        let (step, Ghost(pick)) = self.computer_move();
        let ghost moved = self@;
        assert((moved, step) == computer_moved(drawn, pick));
        if step == Step::Done {
            self.finish_turn();
            assert(self@ == moved.turn_ended());
        }
        (step, Ghost(card), Ghost(pick))
    }

    /// The player draws a card and the ability phase begins.
    fn player_begins(&mut self) -> (card: Ghost<int>)
        requires
            old(self).wf(),
            old(self)@.phase is Begin,
        ensures
            final(self).wf(),
            draw_ok(old(self)@.player, card@),
            final(self)@ == (GameModel {
                player: drew(old(self)@.player, card@),
                phase: Phase::Ability,
                ..old(self)@
            }),
    {
        let card = draw(&mut self.player_deck);
        self.phase = Phase::Ability;
        card
    }

    /// Begins a turn. On the player's turn the player draws a card and the
    /// ability phase begins. On the computer's turn the computer draws a
    /// card and moves, and its turn ends.
    pub fn BeginTurn(&mut self) -> (step: Step)
        requires
            old(self).wf(),
            old(self)@.phase is Begin,
        ensures
            step is Halt || final(self).wf(),
            old(self)@.player_turn ==> step is Done && exists|card: int|
                draw_ok(old(self)@.player, card) && final(self)@ == (GameModel {
                    player: #[trigger] drew(old(self)@.player, card),
                    phase: Phase::Ability,
                    ..old(self)@
                }),
            !old(self)@.player_turn ==> exists|card: int, pick: int|
                draw_ok(old(self)@.computer, card) && pick_ok(old(self)@.board, pick) && (
                final(self)@,
                step,
            ) == #[trigger] self::computer_turn(old(self)@, card, pick),
    {
        if self.player_turn {
            let Ghost(card) = self.player_begins();
            Step::Done
        } else {
            let (step, Ghost(card), Ghost(pick)) = self.computer_turn();
            assert((self@, step) == self::computer_turn(old(self)@, card, pick));
            step
        }
    }

    /// Lets both sides draw a card, as is done before a finished game is
    /// shown.
    pub fn DrawBoth(&mut self)
        requires
            old(self).wf(),
        ensures
            final(self).wf(),
            exists|player_card: int, computer_card: int|
                draw_ok(old(self)@.player, player_card) && draw_ok(
                    old(self)@.computer,
                    computer_card,
                ) && final(self)@ == (GameModel {
                    player: #[trigger] drew(old(self)@.player, player_card),
                    computer: #[trigger] drew(old(self)@.computer, computer_card),
                    ..old(self)@
                }),
    {
        let Ghost(player_card) = draw(&mut self.player_deck);
        let Ghost(computer_card) = draw(&mut self.computer_deck);
        assert(self@ == (GameModel {
            player: drew(old(self)@.player, player_card),
            computer: drew(old(self)@.computer, computer_card),
            ..old(self)@
        }));
    }
}

} // verus!
