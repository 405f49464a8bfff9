use atom_board::command::{CreateCoords, MatchCommand, ReadCommand, SplitWords, VerifyCommand};

fn some(text: &str) -> Option<String> {
    Some(String::from(text))
}

#[test]
fn tile_names_are_a_letter_and_a_digit() {
    assert_eq!(CreateCoords(String::from("A1")), (true, (0, 0)));
    assert_eq!(CreateCoords(String::from("a1")), (true, (0, 0)));
    assert_eq!(CreateCoords(String::from("F6")), (true, (5, 5)));
    assert_eq!(CreateCoords(String::from("f6")), (true, (5, 5)));
    assert_eq!(CreateCoords(String::from("C4")), (true, (2, 3)));
    assert_eq!(CreateCoords(String::from("d2")), (true, (3, 1)));
    assert_eq!(CreateCoords(String::from("B5")), (true, (1, 4)));
    assert_eq!(CreateCoords(String::from("e3")), (true, (4, 2)));
}

#[test]
fn other_texts_name_no_tile() {
    for text in ["", "A", "1", "A0", "A7", "G1", "g3", "1A", "A12", "A1 ", " A1", "AA", "\u{e9}1", "A\u{e9}"] {
        assert_eq!(CreateCoords(String::from(text)), (false, (0, 0)));
    }
}

#[test]
fn commands_are_known_words() {
    for word in ["quit", "start", "play", "restrict", "destroy", "evolve", "pass"] {
        assert_eq!(VerifyCommand(word), some(word));
    }
    for word in ["", "Quit", "plays", "pas", "stop", "play "] {
        assert_eq!(VerifyCommand(word), None);
    }
}

#[test]
fn words_are_split_at_white_space() {
    assert_eq!(SplitWords("play H A1\n"), vec!["play", "H", "A1"]);
    assert_eq!(SplitWords("  restrict\tA1 \u{a0} b2  "), vec!["restrict", "A1", "b2"]);
    assert_eq!(SplitWords("pass"), vec!["pass"]);
    assert_eq!(SplitWords("x"), vec!["x"]);
    assert_eq!(SplitWords(""), Vec::<String>::new());
    assert_eq!(SplitWords(" \n\t "), Vec::<String>::new());
    assert_eq!(SplitWords("\u{e9}t\u{e9} a"), vec!["\u{e9}t\u{e9}", "a"]);
}

#[test]
fn bare_end_of_line_holds_nothing() {
    let mut line = String::from("\n");
    assert_eq!(MatchCommand(&mut line), (None, (None, None, None)));
    assert_eq!(line, "\n");
}

#[test]
fn line_is_sorted_into_command_and_parameters() {
    let mut line = String::from("play H A1\n");
    assert_eq!(MatchCommand(&mut line), (some("play"), (some("H"), some("A1"), None)));
    assert_eq!(line, "play H A1\n");
    let mut line = String::from("restrict a1 b2 c3 d4\n");
    assert_eq!(
        MatchCommand(&mut line),
        (some("restrict"), (some("a1"), some("b2"), some("c3")))
    );
    let mut line = String::from("pass\n");
    assert_eq!(MatchCommand(&mut line), (some("pass"), (None, None, None)));
    let mut line = String::from("dance A1\n");
    assert_eq!(MatchCommand(&mut line), (None, (some("A1"), None, None)));
}

#[test]
fn read_command_tells_when_a_line_cannot_be_read() {
    let mut line = String::from("destroy B2\n");
    assert_eq!(ReadCommand(&mut line), Some((some("destroy"), (some("B2"), None, None))));
    let mut line = String::from("\n");
    assert_eq!(ReadCommand(&mut line), Some((None, (None, None, None))));
    for text in ["", " \n", "\n\n", "\t"] {
        let mut line = String::from(text);
        assert_eq!(ReadCommand(&mut line), None);
        assert_eq!(line, text);
    }
}
