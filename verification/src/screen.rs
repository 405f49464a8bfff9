//! The pieces of text that the screen is made of.

use crate::action_log::ActionLog;
use crate::game_board::GameBoard;
use crate::game_board::board_tile::{Color, Coord, white};
use crate::game_board::grid::in_grid;
use crate::text::{decimal, decimal_text};
use termion::color::{Fg, Rgb};
use vstd::prelude::*;

verus! {

/// The escape sequence that sets the colour of the text that follows.
pub open spec fn fg_sequence(color: Color) -> Seq<char> {
    "\x1b[38;2;"@ + decimal(color.0 as nat) + ";"@ + decimal(color.1 as nat) + ";"@ + decimal(
        color.2 as nat,
    ) + "m"@
}

/// Whether `code` sets the colour `color`, or is empty, as it is where
/// colours are switched off.
pub open spec fn sets_color(code: Seq<char>, color: Color) -> bool {
    code.len() == 0 || code == fg_sequence(color)
}

/// The colour of a line of the log that reports no error.
pub open spec fn green() -> Color {
    (65u8, 221u8, 68u8)
}

/// The colour of a line of the log that reports an error.
pub open spec fn alarm() -> Color {
    (228u8, 8u8, 10u8)
}

/// Formats `termion::color::Fg(termion::color::Rgb(r, g, b))`. It writes
/// the escape sequence `ESC [ 38 ; 2 ; r ; g ; b m`, the three numbers in
/// decimal, or nothing at all where the environment has switched colours
/// off; which of the two is not said here.
#[verifier::external_body]
fn foreground(color: Color) -> (code: String)
    ensures
        sets_color(code@, color),
{
    format!("{}", Fg(Rgb(color.0, color.1, color.2)))
}

/// A tile between brackets: the brackets in the tile's colour, the glyph
/// in the plain colour, and the plain colour set again at the end.
pub open spec fn framed_tile(tint: Seq<char>, plain: Seq<char>, symbol: Seq<char>) -> Seq<char> {
    tint + "["@ + plain + symbol + tint + "]"@ + plain
}

/// Puts a tile's glyph between brackets, given the code of the tile's
/// colour and the code of the plain colour.
pub fn FrameTile(tint: &str, plain: &str, symbol: &str) -> (text: String)
    ensures
        text@ == framed_tile(tint@, plain@, symbol@),
{
    let mut text = tint.to_owned();
    text.append("[");
    text.append(plain);
    text.append(symbol);
    text.append(tint);
    text.append("]");
    text.append(plain);
    text
}

/// The tile at `coords` as it is shown.
pub fn TileText(board: &GameBoard, coords: Coord) -> (text: String)
    requires
        in_grid(coords),
    ensures
        exists|tint: Seq<char>, plain: Seq<char>|
            sets_color(tint, board@.tiles[coords].color) && sets_color(plain, white()) && text@
                == #[trigger] framed_tile(tint, plain, board@.tiles[coords].symbol),
{
    let tile = board.PeekTile(coords);
    let tint = foreground(tile.GetColor());
    let plain = foreground((255, 255, 255));
    let symbol = tile.GetSymbol();
    FrameTile(tint.as_str(), plain.as_str(), symbol.as_str())
}

/// A line of the log in its colour, with the plain colour set again at
/// the end.
pub open spec fn framed_line(tint: Seq<char>, plain: Seq<char>, line: Seq<char>) -> Seq<char> {
    tint + line + plain
}

/// Puts a line of the log between the codes of its colour and of the
/// plain colour.
pub fn FrameLine(tint: &str, plain: &str, line: &str) -> (text: String)
    ensures
        text@ == framed_line(tint@, plain@, line@),
{
    let mut text = tint.to_owned();
    text.append(line);
    text.append(plain);
    text
}

/// The line at `index` of the log as it is shown: green, or red where it
/// reports an error. Nothing is shown for a line that the log does not
/// have.
pub fn LogLineText(log: &ActionLog, index: usize) -> (text: String)
    requires
        log.wf(),
    ensures
        index >= log@.len() ==> text@.len() == 0,
        index < log@.len() ==> exists|tint: Seq<char>, plain: Seq<char>|
            sets_color(
                tint,
                if log@[index as int].is_error {
                    alarm()
                } else {
                    green()
                },
            ) && sets_color(plain, white()) && text@ == #[trigger] framed_line(
                tint,
                plain,
                log@[index as int].text,
            ),
{
    match log.Line(index) {
        None => String::new(),
        Some((line, is_error)) => {
            let mut tint = foreground((65, 221, 68));
            if is_error {
                tint = foreground((228, 8, 10));
            }
            let plain = foreground((255, 255, 255));
            FrameLine(tint.as_str(), plain.as_str(), line.as_str())
        },
    }
}

/// The blanks that keep the scores in their columns.
pub open spec fn score_padding(player: u16) -> Seq<char> {
    if player < 10 {
        "  "@
    } else if player < 100 {
        " "@
    } else {
        ""@
    }
}

/// The line of the screen that holds the two scores.
pub open spec fn score_line(player: u16, computer: u16) -> Seq<char> {
    "----                                               ----  | Player Score: "@ + decimal(
        player as nat,
    ) + score_padding(player) + "       Computer Score: "@ + decimal(computer as nat)
}

/// Writes the line of the screen that holds the two scores.
pub fn ScoreText(player: u16, computer: u16) -> (text: String)
    ensures
        text@ == score_line(player, computer),
{
    let spaces = if player < 10 {
        "  "
    } else if player < 100 {
        " "
    } else {
        ""
    };
    let mut text =
        "----                                               ----  | Player Score: ".to_owned();
    text.append(decimal_text(player).as_str());
    text.append(spaces);
    text.append("       Computer Score: ");
    text.append(decimal_text(computer).as_str());
    text
}

} // verus!
