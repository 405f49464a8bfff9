use atom_board::card_deck::{Card, CardDeck};

fn deal_all(cards: &mut CardDeck) {
    while cards.DeckSize() > 0 {
        cards.DealCard(0);
    }
}

fn names(cards: &mut CardDeck) -> Vec<String> {
    let mut all = Vec::new();
    for i in 0..cards.HandSize() {
        all.push(cards.GetFromIndex(i).name);
    }
    all
}

#[test]
fn fresh_deck_has_sixteen_cards() {
    let mut cards = CardDeck::default();
    assert_eq!(cards.DeckSize(), 16);
    assert_eq!(cards.HandSize(), 0);
    deal_all(&mut cards);
    assert_eq!(
        names(&mut cards),
        vec![
            "H", "O", "H", "O", "H", "O", "H", "O", "Li", "Be", "C", "Li", "Be", "C", "N", "F"
        ]
    );
}

#[test]
fn cards_hold_their_elements() {
    let mut cards = CardDeck::default();
    deal_all(&mut cards);
    let carbon: Card = cards.GetCard(String::from("C")).unwrap();
    assert_eq!(carbon.symbol, "C ");
    assert_eq!(carbon.number_of_bonds, 4);
    assert!(!carbon.is_metal);
    assert_eq!(carbon.atomic_number, 6);
    let lithium = cards.GetCard(String::from("Li")).unwrap();
    assert_eq!(lithium.symbol, "Li");
    assert_eq!(lithium.number_of_bonds, 1);
    assert!(lithium.is_metal);
    assert_eq!(lithium.atomic_number, 3);
    let oxygen = cards.GetCard(String::from("O")).unwrap();
    assert_eq!(oxygen.number_of_bonds, 2);
    assert_eq!(oxygen.atomic_number, 8);
    assert!(cards.GetCard(String::from("Na")).is_none());
    assert!(cards.GetCard(String::from("C ")).is_none());
}

#[test]
fn deal_card_moves_one_card() {
    let mut cards = CardDeck::default();
    cards.DealCard(8);
    cards.DealCard(0);
    cards.DealCard(13);
    assert_eq!(cards.DeckSize(), 13);
    assert_eq!(names(&mut cards), vec!["Li", "H", "F"]);
}

#[test]
fn add_to_hand_draws_from_the_deck() {
    let mut cards = CardDeck::default();
    for drawn in 1..=16 {
        cards.AddToHand();
        assert_eq!(cards.HandSize(), drawn);
        assert_eq!(cards.DeckSize(), 16 - drawn);
    }
    cards.AddToHand();
    assert_eq!(cards.HandSize(), 16);
    assert_eq!(cards.DeckSize(), 0);
    let mut drawn = names(&mut cards);
    drawn.sort();
    let mut full = CardDeck::default();
    deal_all(&mut full);
    let mut expected = names(&mut full);
    expected.sort();
    assert_eq!(drawn, expected);
}

#[test]
fn evolve_turns_a_card_into_the_next_element() {
    let mut cards = CardDeck::default();
    deal_all(&mut cards);
    let mut hydrogen = cards.GetCard(String::from("H")).unwrap();
    hydrogen.Evolve();
    assert_eq!(hydrogen.name, "Li");
    assert_eq!(hydrogen.symbol, "Li");
    assert_eq!(hydrogen.atomic_number, 3);
    assert_eq!(hydrogen.number_of_bonds, 1);
    assert!(!hydrogen.is_metal);
}

#[test]
fn evolve_card_changes_the_first_match_only() {
    let mut cards = CardDeck::default();
    deal_all(&mut cards);
    assert!(cards.EvolveCard(String::from("O")));
    assert_eq!(
        names(&mut cards),
        vec![
            "H", "S", "H", "O", "H", "O", "H", "O", "Li", "Be", "C", "Li", "Be", "C", "N", "F"
        ]
    );
    let sulfur = cards.GetFromIndex(1);
    assert_eq!(sulfur.symbol, "S ");
    assert_eq!(sulfur.atomic_number, 16);
    assert_eq!(sulfur.number_of_bonds, 2);
    assert!(!cards.EvolveCard(String::from("Xe")));
    assert_eq!(cards.HandSize(), 16);
}

#[test]
fn remove_card_takes_the_first_match_only() {
    let mut cards = CardDeck::default();
    deal_all(&mut cards);
    cards.RemoveCard(String::from("Li"));
    assert_eq!(
        names(&mut cards),
        vec!["H", "O", "H", "O", "H", "O", "H", "O", "Be", "C", "Li", "Be", "C", "N", "F"]
    );
    cards.RemoveCard(String::from("Xe"));
    assert_eq!(cards.HandSize(), 15);
    assert_eq!(cards.DeckSize(), 0);
}

#[test]
fn hand_is_shown_on_two_lines() {
    let mut cards = CardDeck::default();
    assert_eq!(cards.UpperHandText(), "|");
    assert_eq!(cards.LowerHandText(), "|");
    cards.DealCard(15);
    cards.DealCard(8);
    cards.DealCard(0);
    assert!(cards.EvolveCard(String::from("F")));
    assert_eq!(cards.UpperHandText(), "|Cl|Li|H |");
    assert_eq!(cards.LowerHandText(), "|17|3 |1 |");
}
