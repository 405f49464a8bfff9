//! The text a player types: commands, their parameters, and the names of
//! tiles.

use crate::game_board::board_tile::{Coord, tag_view};
use vstd::prelude::*;

verus! {

/// Whether `c` is white space: what `char::is_whitespace` says of it.
pub uninterp spec fn white_space(c: char) -> bool;

/// Calls `char::is_whitespace`, which tells whether a character has the
/// Unicode property of white space: a function of the character alone.
#[verifier::external_body]
fn is_space(c: char) -> (space: bool)
    ensures
        space == white_space(c),
{
    c.is_whitespace()
}

/// The words of a text: its longest runs of characters that are no white
/// space, in their order.
pub open spec fn words(text: Seq<char>) -> Seq<Seq<char>>
    decreases text.len(),
{
    if text.len() == 0 {
        Seq::empty()
    } else {
        let earlier = words(text.drop_last());
        if white_space(text.last()) {
            earlier
        } else if text.len() >= 2 && !white_space(text[text.len() - 2]) {
            earlier.drop_last().push(earlier.last().push(text.last()))
        } else {
            earlier.push(seq![text.last()])
        }
    }
}

/// The values of a sequence of strings.
pub open spec fn texts_view(texts: Seq<String>) -> Seq<Seq<char>> {
    texts.map_values(|text: String| text@)
}

/// Every text that ends in a character that is no white space has a word.
proof fn lemma_last_word(text: Seq<char>)
    requires
        text.len() > 0,
        !white_space(text.last()),
    ensures
        words(text).len() > 0,
    decreases text.len(),
{
    if text.len() >= 2 && !white_space(text[text.len() - 2]) {
        assert(text.drop_last().last() == text[text.len() - 2]);
        lemma_last_word(text.drop_last());
    }
}

/// Splits a text into its words.
pub fn SplitWords(text: &str) -> (found: Vec<String>)
    ensures
        texts_view(found@) == words(text@),
{
    let mut found: Vec<String> = Vec::new();
    let length = text.unicode_len();
    let mut in_word = false;
    let mut i: usize = 0;
    assert(text@.take(0) =~= Seq::<char>::empty());
    assert(texts_view(found@) =~= words(text@.take(0)));
    while i < length
        invariant
            i <= length,
            length == text@.len(),
            texts_view(found@) == words(text@.take(i as int)),
            in_word == (i > 0 && !white_space(text@[i - 1])),
        decreases length - i,
    {
        let ghost earlier = text@.take(i as int);
        let ghost upto = text@.take(i + 1);
        let ghost before = found@;
        assert(upto.drop_last() =~= earlier);
        assert(upto.last() == text@[i as int]);
        let c = text.get_char(i);
        if is_space(c) {
            in_word = false;
        } else {
            let piece = text.substring_char(i, i + 1);
            assert(piece@ =~= seq![c]);
            if in_word {
                proof {
                    assert(upto[upto.len() - 2] == text@[i - 1]);
                    lemma_last_word(earlier);
                }
                let last = found.len() - 1;
                found[last].append(piece);
                assert(found@.len() == before.len());
                assert(found@[last as int]@ =~= before[last as int]@.push(c));
                assert(forall|j: int| 0 <= j < last ==> found@[j] == before[j]);
                assert(texts_view(found@) =~= texts_view(before).drop_last().push(
                    texts_view(before).last().push(c),
                ));
            } else {
                found.push(piece.to_owned());
                assert(texts_view(found@) =~= texts_view(before).push(seq![c]));
                proof {
                    if i > 0 {
                        assert(upto[upto.len() - 2] == text@[i - 1]);
                    }
                }
            }
            in_word = true;
        }
        i = i + 1;
    }
    assert(text@.take(length as int) =~= text@);
    found
}

/// Whether a word is one of the commands of the game.
pub open spec fn is_command(word: Seq<char>) -> bool {
    ||| word == "quit"@
    ||| word == "start"@
    ||| word == "play"@
    ||| word == "restrict"@
    ||| word == "destroy"@
    ||| word == "evolve"@
    ||| word == "pass"@
}

/// A word as a command, if it is one.
pub open spec fn verify_command(word: Seq<char>) -> Option<Seq<char>> {
    if is_command(word) {
        Some(word)
    } else {
        None
    }
}

fn same_text(a: &str, b: &str) -> (same: bool)
    ensures
        same == (a@ == b@),
{
    a.to_owned() == b.to_owned()
}

/// Checks a word against the commands of the game.
pub fn VerifyCommand(command: &str) -> (verified: Option<String>)
    ensures
        tag_view(verified) == verify_command(command@),
{
    if same_text(command, "quit") || same_text(command, "start") || same_text(command, "play")
        || same_text(command, "restrict") || same_text(command, "destroy") || same_text(
        command,
        "evolve",
    ) || same_text(command, "pass") {
        Some(command.to_owned())
    } else {
        None
    }
}

/// The word at `index`, if there is one.
pub open spec fn word_at(found: Seq<Seq<char>>, index: int) -> Option<Seq<char>> {
    if 0 <= index < found.len() {
        Some(found[index])
    } else {
        None
    }
}

/// What a line of input holds: its command, if the first word is one, and
/// up to three parameters.
pub struct LineModel {
    pub command: Option<Seq<char>>,
    pub first: Option<Seq<char>>,
    pub second: Option<Seq<char>>,
    pub third: Option<Seq<char>>,
}

/// A line that is nothing but the end of a line holds nothing; any other
/// line is read word by word.
pub open spec fn match_command(line: Seq<char>) -> LineModel
    recommends
        can_match(line),
{
    if line == "\n"@ {
        LineModel { command: None, first: None, second: None, third: None }
    } else {
        LineModel {
            command: verify_command(words(line)[0]),
            first: word_at(words(line), 1),
            second: word_at(words(line), 2),
            third: word_at(words(line), 3),
        }
    }
}

/// Whether a line can be read: it is the bare end of a line, or it has a
/// word.
pub open spec fn can_match(line: Seq<char>) -> bool {
    line == "\n"@ || words(line).len() > 0
}

/// The value of the fields that a line was sorted into.
pub open spec fn fields_view(
    fields: (Option<String>, (Option<String>, Option<String>, Option<String>)),
) -> LineModel {
    LineModel {
        command: tag_view(fields.0),
        first: tag_view(fields.1.0),
        second: tag_view(fields.1.1),
        third: tag_view(fields.1.2),
    }
}

fn word_copy(found: &Vec<String>, index: usize) -> (word: Option<String>)
    ensures
        tag_view(word) == word_at(texts_view(found@), index as int),
{
    if found.len() > index {
        Some(found[index].clone())
    } else {
        None
    }
}

/// Sorts a line of input into a command and its parameters. The line must
/// be the bare end of a line or hold a word.
pub fn MatchCommand(user_input: &mut String) -> (fields: (
    Option<String>,
    (Option<String>, Option<String>, Option<String>),
))
    requires
        can_match(old(user_input)@),
    ensures
        *final(user_input) == *old(user_input),
        fields_view(fields) == match_command(old(user_input)@),
{
    if same_text(user_input.as_str(), "\n") {
        return (None, (None, None, None));
    }
    let command_vector = SplitWords(user_input.as_str());
    assert(texts_view(command_vector@)[0] == command_vector@[0]@);
    let command_keyword = VerifyCommand(command_vector[0].as_str());
    let parameter_1 = word_copy(&command_vector, 1);
    let parameter_2 = word_copy(&command_vector, 2);
    let parameter_3 = word_copy(&command_vector, 3);
    (command_keyword, (parameter_1, parameter_2, parameter_3))
}

/// Sorts a line of input into a command and its parameters; `None` for a
/// line that holds no word and is not the bare end of a line.
pub fn ReadCommand(user_input: &mut String) -> (fields: Option<
    (Option<String>, (Option<String>, Option<String>, Option<String>)),
>)
    ensures
        *final(user_input) == *old(user_input),
        match fields {
            Some(sorted) => can_match(old(user_input)@) && fields_view(sorted) == match_command(
                old(user_input)@,
            ),
            None => !can_match(old(user_input)@),
        },
{
    if !same_text(user_input.as_str(), "\n") {
        let found = SplitWords(user_input.as_str());
        if found.len() == 0 {
            return None;
        }
    }
    Some(MatchCommand(user_input))
}

/// The column that a letter names.
pub open spec fn column_of(c: char) -> Option<usize> {
    if c == 'A' || c == 'a' {
        Some(0usize)
    } else if c == 'B' || c == 'b' {
        Some(1usize)
    } else if c == 'C' || c == 'c' {
        Some(2usize)
    } else if c == 'D' || c == 'd' {
        Some(3usize)
    } else if c == 'E' || c == 'e' {
        Some(4usize)
    } else if c == 'F' || c == 'f' {
        Some(5usize)
    } else {
        None
    }
}

/// The row that a digit names.
pub open spec fn row_of(c: char) -> Option<usize> {
    if c == '1' {
        Some(0usize)
    } else if c == '2' {
        Some(1usize)
    } else if c == '3' {
        Some(2usize)
    } else if c == '4' {
        Some(3usize)
    } else if c == '5' {
        Some(4usize)
    } else if c == '6' {
        Some(5usize)
    } else {
        None
    }
}

/// The tile that a name stands for: a letter from A to F, in either case,
/// and a digit from 1 to 6. Any other text names no tile.
pub open spec fn create_coords(tile: Seq<char>) -> (bool, Coord) {
    if tile.len() == 2 && column_of(tile[0]) is Some && row_of(tile[1]) is Some {
        (true, (column_of(tile[0])->0, row_of(tile[1])->0))
    } else {
        (false, (0usize, 0usize))
    }
}

fn column(c: char) -> (found: Option<usize>)
    ensures
        found == column_of(c),
{
    if c == 'A' || c == 'a' {
        Some(0)
    } else if c == 'B' || c == 'b' {
        Some(1)
    } else if c == 'C' || c == 'c' {
        Some(2)
    } else if c == 'D' || c == 'd' {
        Some(3)
    } else if c == 'E' || c == 'e' {
        Some(4)
    } else if c == 'F' || c == 'f' {
        Some(5)
    } else {
        None
    }
}

fn row(c: char) -> (found: Option<usize>)
    ensures
        found == row_of(c),
{
    if c == '1' {
        Some(0)
    } else if c == '2' {
        Some(1)
    } else if c == '3' {
        Some(2)
    } else if c == '4' {
        Some(3)
    } else if c == '5' {
        Some(4)
    } else if c == '6' {
        Some(5)
    } else {
        None
    }
}

/// Turns the name of a tile into its position; the flag says whether the
/// text names a tile.
pub fn CreateCoords(tile: String) -> (named: (bool, Coord))
    ensures
        named == create_coords(tile@),
        named.0 ==> named.1.0 < 6 && named.1.1 < 6,
{
    let text = tile.as_str();
    if text.unicode_len() != 2 {
        return (false, (0, 0));
    }
    let x = match column(text.get_char(0)) {
        Some(x) => x,
        None => {
            return (false, (0, 0));
        },
    };
    let y = match row(text.get_char(1)) {
        Some(y) => y,
        None => {
            return (false, (0, 0));
        },
    };
    (true, (x, y))
}

} // verus!
