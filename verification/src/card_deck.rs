//! The cards of a player: a deck to draw from and a hand to play from.

use crate::random::random_below;
use crate::text::{decimal, decimal_text};
use vstd::prelude::*;

verus! {

/// The mathematical value of a card.
pub struct CardModel {
    pub name: Seq<char>,
    pub symbol: Seq<char>,
    pub number_of_bonds: u16,
    pub is_metal: bool,
    pub atomic_number: u16,
    pub evo_name: Seq<char>,
    pub evo_symbol: Seq<char>,
    pub evo_atomic_number: u16,
}

impl CardModel {
    /// The card with the element below it in the periodic table in its
    /// place.
    pub open spec fn evolved(self) -> CardModel {
        CardModel {
            name: self.evo_name,
            symbol: self.evo_symbol,
            atomic_number: self.evo_atomic_number,
            ..self
        }
    }
}

/// An atom to be played, and the atom it evolves into.
pub struct Card {
    pub name: String,
    pub symbol: String,
    pub number_of_bonds: u16,
    pub is_metal: bool,
    pub atomic_number: u16,
    pub evo_name: String,
    pub evo_symbol: String,
    pub evo_atomic_number: u16,
}

impl View for Card {
    type V = CardModel;

    open spec fn view(&self) -> CardModel {
        CardModel {
            name: self.name@,
            symbol: self.symbol@,
            number_of_bonds: self.number_of_bonds,
            is_metal: self.is_metal,
            atomic_number: self.atomic_number,
            evo_name: self.evo_name@,
            evo_symbol: self.evo_symbol@,
            evo_atomic_number: self.evo_atomic_number,
        }
    }
}

impl Clone for Card {
    fn clone(&self) -> (card: Self)
        ensures
            card@ == self@,
    {
        Card {
            name: self.name.clone(),
            symbol: self.symbol.clone(),
            number_of_bonds: self.number_of_bonds,
            is_metal: self.is_metal,
            atomic_number: self.atomic_number,
            evo_name: self.evo_name.clone(),
            evo_symbol: self.evo_symbol.clone(),
            evo_atomic_number: self.evo_atomic_number,
        }
    }
}

impl Card {
    /// Turns the card into the atom it evolves into.
    pub fn Evolve(&mut self)
        ensures
            final(self)@ == old(self)@.evolved(),
    {
        self.name = self.evo_name.clone();
        self.symbol = self.evo_symbol.clone();
        self.atomic_number = self.evo_atomic_number;
    }
}

/// The card of hydrogen.
pub open spec fn hydrogen() -> CardModel {
    CardModel {
        name: "H"@,
        symbol: "H "@,
        number_of_bonds: 1,
        is_metal: false,
        atomic_number: 1,
        evo_name: "Li"@,
        evo_symbol: "Li"@,
        evo_atomic_number: 3,
    }
}

/// The card of lithium.
pub open spec fn lithium() -> CardModel {
    CardModel {
        name: "Li"@,
        symbol: "Li"@,
        number_of_bonds: 1,
        is_metal: true,
        atomic_number: 3,
        evo_name: "Na"@,
        evo_symbol: "Na"@,
        evo_atomic_number: 11,
    }
}

/// The card of beryllium.
pub open spec fn beryllium() -> CardModel {
    CardModel {
        name: "Be"@,
        symbol: "Be"@,
        number_of_bonds: 2,
        is_metal: true,
        atomic_number: 4,
        evo_name: "Mg"@,
        evo_symbol: "Mg"@,
        evo_atomic_number: 12,
    }
}

/// The card of carbon.
pub open spec fn carbon() -> CardModel {
    CardModel {
        name: "C"@,
        symbol: "C "@,
        number_of_bonds: 4,
        is_metal: false,
        atomic_number: 6,
        evo_name: "Si"@,
        evo_symbol: "Si"@,
        evo_atomic_number: 14,
    }
}

/// The card of nitrogen.
pub open spec fn nitrogen() -> CardModel {
    CardModel {
        name: "N"@,
        symbol: "N "@,
        number_of_bonds: 3,
        is_metal: false,
        atomic_number: 7,
        evo_name: "P"@,
        evo_symbol: "P "@,
        evo_atomic_number: 15,
    }
}

/// The card of oxygen.
pub open spec fn oxygen() -> CardModel {
    CardModel {
        name: "O"@,
        symbol: "O "@,
        number_of_bonds: 2,
        is_metal: false,
        atomic_number: 8,
        evo_name: "S"@,
        evo_symbol: "S "@,
        evo_atomic_number: 16,
    }
}

/// The card of fluorine.
pub open spec fn fluorine() -> CardModel {
    CardModel {
        name: "F"@,
        symbol: "F "@,
        number_of_bonds: 1,
        is_metal: false,
        atomic_number: 9,
        evo_name: "Cl"@,
        evo_symbol: "Cl"@,
        evo_atomic_number: 17,
    }
}

/// The sixteen cards of a fresh deck.
pub open spec fn starting_deck() -> Seq<CardModel> {
    seq![
        hydrogen(),
        oxygen(),
        hydrogen(),
        oxygen(),
        hydrogen(),
        oxygen(),
        hydrogen(),
        oxygen(),
        lithium(),
        beryllium(),
        carbon(),
        lithium(),
        beryllium(),
        carbon(),
        nitrogen(),
        fluorine(),
    ]
}

/// The places of the cards in a fresh deck.
spec fn laid_out(full: Seq<CardModel>) -> bool {
    &&& full.len() == 16
    &&& full[0] == hydrogen() && full[1] == oxygen()
    &&& full[2] == hydrogen() && full[3] == oxygen()
    &&& full[4] == hydrogen() && full[5] == oxygen()
    &&& full[6] == hydrogen() && full[7] == oxygen()
    &&& full[8] == lithium() && full[9] == beryllium() && full[10] == carbon()
    &&& full[11] == lithium() && full[12] == beryllium() && full[13] == carbon()
    &&& full[14] == nitrogen() && full[15] == fluorine()
}

fn make_card(
    name: &str,
    symbol: &str,
    number_of_bonds: u16,
    is_metal: bool,
    atomic_number: u16,
    evo_name: &str,
    evo_symbol: &str,
    evo_atomic_number: u16,
) -> (card: Card)
    ensures
        card@ == (CardModel {
            name: name@,
            symbol: symbol@,
            number_of_bonds,
            is_metal,
            atomic_number,
            evo_name: evo_name@,
            evo_symbol: evo_symbol@,
            evo_atomic_number,
        }),
{
    Card {
        name: name.to_owned(),
        symbol: symbol.to_owned(),
        number_of_bonds,
        is_metal,
        atomic_number,
        evo_name: evo_name.to_owned(),
        evo_symbol: evo_symbol.to_owned(),
        evo_atomic_number,
    }
}

/// The values of a sequence of cards.
pub open spec fn cards_view(cards: Seq<Card>) -> Seq<CardModel> {
    cards.map_values(|card: Card| card@)
}

/// The mathematical value of a player's cards.
pub struct DeckModel {
    pub deck: Seq<CardModel>,
    pub hand: Seq<CardModel>,
}

/// Whether `index` is the place of the first card of `hand` named `name`.
pub open spec fn first_named(hand: Seq<CardModel>, name: Seq<char>, index: int) -> bool {
    &&& 0 <= index < hand.len()
    &&& hand[index].name == name
    &&& forall|j: int| 0 <= j < index ==> (#[trigger] hand[j]).name != name
}

/// The place of the first card of `hand` named `name`.
pub open spec fn index_named(hand: Seq<CardModel>, name: Seq<char>) -> int {
    choose|index: int| first_named(hand, name, index)
}

/// The first card of a name has one place only.
pub proof fn lemma_first_named(hand: Seq<CardModel>, name: Seq<char>, index: int)
    requires
        first_named(hand, name, index),
    ensures
        index_named(hand, name) == index,
        !none_named(hand, name),
{
    let other = index_named(hand, name);
    assert(first_named(hand, name, other));
    if other < index {
        assert(hand[other].name != name);
    }
    if index < other {
        assert(hand[index].name != name);
    }
}

/// Whether no card of `hand` is named `name`.
pub open spec fn none_named(hand: Seq<CardModel>, name: Seq<char>) -> bool {
    forall|j: int| 0 <= j < hand.len() ==> (#[trigger] hand[j]).name != name
}

/// The upper line of a hand on the screen: a bar and the symbol for each
/// card, and a closing bar.
pub open spec fn upper_hand(hand: Seq<CardModel>) -> Seq<char>
    decreases hand.len(),
{
    if hand.len() == 0 {
        "|"@
    } else {
        "|"@ + hand[0].symbol + upper_hand(hand.drop_first())
    }
}

/// An atomic number in a field two wide.
pub open spec fn number_field(n: u16) -> Seq<char> {
    if n < 10 {
        decimal(n as nat) + " "@
    } else {
        decimal(n as nat)
    }
}

/// The lower line of a hand on the screen: a bar and the atomic number for
/// each card, and a closing bar.
pub open spec fn lower_hand(hand: Seq<CardModel>) -> Seq<char>
    decreases hand.len(),
{
    if hand.len() == 0 {
        "|"@
    } else {
        "|"@ + number_field(hand[0].atomic_number) + lower_hand(hand.drop_first())
    }
}

/// The cards of one side: the deck to draw from and the hand.
pub struct CardDeck {
    deck: Vec<Card>,
    hand: Vec<Card>,
}

impl View for CardDeck {
    type V = DeckModel;

    closed spec fn view(&self) -> DeckModel {
        DeckModel { deck: cards_view(self.deck@), hand: cards_view(self.hand@) }
    }
}

impl Default for CardDeck {
    fn default() -> (cards: Self)
        ensures
            cards@.deck == starting_deck(),
            cards@.hand == Seq::<CardModel>::empty(),
    {
        let hydrogen = make_card("H", "H ", 1, false, 1, "Li", "Li", 3);
        let lithium = make_card("Li", "Li", 1, true, 3, "Na", "Na", 11);
        let beryllium = make_card("Be", "Be", 2, true, 4, "Mg", "Mg", 12);
        let carbon = make_card("C", "C ", 4, false, 6, "Si", "Si", 14);
        let nitrogen = make_card("N", "N ", 3, false, 7, "P", "P ", 15);
        let oxygen = make_card("O", "O ", 2, false, 8, "S", "S ", 16);
        let fluorine = make_card("F", "F ", 1, false, 9, "Cl", "Cl", 17);
        let mut card_vector: Vec<Card> = Vec::new();
        let ghost full = starting_deck();
        assert(laid_out(full));
        assert(cards_view(card_vector@) =~= full.take(0));
        let mut i: usize = 0;
        while i < 4
            invariant
                i <= 4,
                hydrogen@ == self::hydrogen(),
                oxygen@ == self::oxygen(),
                laid_out(full),
                cards_view(card_vector@) == full.take(2 * i),
            decreases 4 - i,
        {
            card_vector.push(hydrogen.clone());
            card_vector.push(oxygen.clone());
            proof {
                assert(i == 0 || i == 1 || i == 2 || i == 3);
                assert(cards_view(card_vector@) =~= full.take(2 * i).push(self::hydrogen()).push(
                    self::oxygen(),
                ));
                assert(full.take(2 * i).push(self::hydrogen()).push(self::oxygen()) =~= full.take(
                    2 * i + 2,
                ));
            }
            i = i + 1;
        }
        let mut i: usize = 0;
        while i < 2
            invariant
                i <= 2,
                lithium@ == self::lithium(),
                beryllium@ == self::beryllium(),
                carbon@ == self::carbon(),
                laid_out(full),
                cards_view(card_vector@) == full.take(8 + 3 * i),
            decreases 2 - i,
        {
            card_vector.push(lithium.clone());
            card_vector.push(beryllium.clone());
            card_vector.push(carbon.clone());
            proof {
                assert(i == 0 || i == 1);
                assert(cards_view(card_vector@) =~= full.take(8 + 3 * i).push(
                    self::lithium(),
                ).push(self::beryllium()).push(self::carbon()));
                assert(full.take(8 + 3 * i).push(self::lithium()).push(self::beryllium()).push(
                    self::carbon(),
                ) =~= full.take(11 + 3 * i));
            }
            i = i + 1;
        }
        card_vector.push(nitrogen.clone());
        card_vector.push(fluorine.clone());
        let cards = CardDeck { deck: card_vector, hand: Vec::new() };
        assert(cards@.deck =~= full.take(14).push(self::nitrogen()).push(self::fluorine()));
        assert(full.take(14).push(self::nitrogen()).push(self::fluorine()) =~= full);
        assert(cards@.hand =~= Seq::<CardModel>::empty());
        cards
    }
}

impl CardDeck {
    /// How many cards are left in the deck.
    pub fn DeckSize(&self) -> (size: usize)
        ensures
            size == self@.deck.len(),
    {
        self.deck.len()
    }

    /// How many cards are in the hand.
    pub fn HandSize(&self) -> (size: usize)
        ensures
            size == self@.hand.len(),
    {
        self.hand.len()
    }

    /// Moves the card at `index` of the deck to the end of the hand.
    pub fn DealCard(&mut self, index: usize)
        requires
            index < old(self)@.deck.len(),
        ensures
            final(self)@.deck == old(self)@.deck.remove(index as int),
            final(self)@.hand == old(self)@.hand.push(old(self)@.deck[index as int]),
    {
        let card = self.deck.remove(index);
        self.hand.push(card);
        assert(self@.deck =~= old(self)@.deck.remove(index as int));
        assert(self@.hand =~= old(self)@.hand.push(old(self)@.deck[index as int]));
    }

    /// Takes a card of the deck, chosen at random, out of the deck; `None`
    /// when the deck is empty.
    fn DrawCard(&mut self) -> (drawn: Option<Card>)
        ensures
            final(self)@.hand == old(self)@.hand,
            old(self)@.deck.len() == 0 ==> drawn is None && final(self)@ == old(self)@,
            old(self)@.deck.len() > 0 ==> drawn is Some && exists|index: int|
                0 <= index < old(self)@.deck.len() && drawn->0@ == old(self)@.deck[index]
                    && final(self)@.deck == #[trigger] old(self)@.deck.remove(index),
    {
        if self.deck.len() == 0 {
            return None;
        }
        let index = random_below(self.deck.len());
        let ret_val = self.deck[index].clone();
        self.deck.remove(index);
        assert(self@.deck =~= old(self)@.deck.remove(index as int));
        Some(ret_val)
    }

    /// Moves a card of the deck, chosen at random, to the end of the hand;
    /// nothing happens when the deck is empty.
    pub fn AddToHand(&mut self)
        ensures
            old(self)@.deck.len() == 0 ==> final(self)@ == old(self)@,
            old(self)@.deck.len() > 0 ==> exists|index: int|
                0 <= index < old(self)@.deck.len() && final(self)@.deck == #[trigger] old(
                    self,
                )@.deck.remove(index) && final(self)@.hand == old(self)@.hand.push(
                    old(self)@.deck[index],
                ),
    {
        match self.DrawCard() {
            Some(card) => {
                self.hand.push(card);
                assert(self@.hand =~= old(self)@.hand.push(card@));
            },
            None => (),
        }
    }

    /// The first card of the hand that is named `card_name`.
    pub fn GetCard(&mut self, card_name: String) -> (found: Option<Card>)
        ensures
            *final(self) == *old(self),
            match found {
                Some(card) => exists|index: int|
                    first_named(old(self)@.hand, card_name@, index) && card@ == old(
                        self,
                    )@.hand[index],
                None => none_named(old(self)@.hand, card_name@),
            },
    {
        let mut i: usize = 0;
        while i < self.hand.len()
            invariant
                *self == *old(self),
                i <= self.hand.len(),
                forall|j: int| 0 <= j < i ==> (#[trigger] self@.hand[j]).name != card_name@,
            decreases self.hand.len() - i,
        {
            if self.hand[i].name == card_name {
                let card = self.hand[i].clone();
                assert(first_named(self@.hand, card_name@, i as int));
                return Some(card);
            }
            i = i + 1;
        }
        None
    }

    /// The card at `card_index` of the hand.
    pub fn GetFromIndex(&mut self, card_index: usize) -> (card: Card)
        requires
            card_index < old(self)@.hand.len(),
        ensures
            *final(self) == *old(self),
            card@ == old(self)@.hand[card_index as int],
    {
        self.hand[card_index].clone()
    }

    /// Evolves the first card of the hand that is named `card_name`, and
    /// says whether there was one.
    pub fn EvolveCard(&mut self, card_name: String) -> (evolved: bool)
        ensures
            final(self)@.deck == old(self)@.deck,
            evolved ==> exists|index: int|
                first_named(old(self)@.hand, card_name@, index) && final(self)@.hand
                    == #[trigger] old(self)@.hand.update(
                    index,
                    old(self)@.hand[index].evolved(),
                ),
            !evolved ==> none_named(old(self)@.hand, card_name@) && final(self)@ == old(self)@,
    {
        let mut i: usize = 0;
        while i < self.hand.len()
            invariant
                *self == *old(self),
                i <= self.hand.len(),
                forall|j: int| 0 <= j < i ==> (#[trigger] self@.hand[j]).name != card_name@,
            decreases self.hand.len() - i,
        {
            if self.hand[i].name == card_name {
                assert(first_named(self@.hand, card_name@, i as int));
                self.hand[i].Evolve();
                assert(self@.hand =~= old(self)@.hand.update(
                    i as int,
                    old(self)@.hand[i as int].evolved(),
                ));
                return true;
            }
            i = i + 1;
        }
        false
    }

    /// Takes the first card that is named `card_name` out of the hand, if
    /// there is one.
    pub fn RemoveCard(&mut self, card_name: String)
        ensures
            final(self)@.deck == old(self)@.deck,
            none_named(old(self)@.hand, card_name@) ==> final(self)@ == old(self)@,
            !none_named(old(self)@.hand, card_name@) ==> exists|index: int|
                first_named(old(self)@.hand, card_name@, index) && final(self)@.hand
                    == #[trigger] old(self)@.hand.remove(index),
    {
        let mut i: usize = 0;
        while i < self.hand.len()
            invariant
                *self == *old(self),
                i <= self.hand.len(),
                forall|j: int| 0 <= j < i ==> (#[trigger] self@.hand[j]).name != card_name@,
            decreases self.hand.len() - i,
        {
            if self.hand[i].name == card_name {
                assert(first_named(self@.hand, card_name@, i as int));
                self.hand.remove(i);
                assert(self@.hand =~= old(self)@.hand.remove(i as int));
                return ;
            }
            i = i + 1;
        }
    }

    /// The upper line of the hand as it is shown: the symbols.
    pub fn UpperHandText(&self) -> (text: String)
        ensures
            text@ == upper_hand(self@.hand),
    {
        let mut text = String::new();
        let mut i: usize = 0;
        assert(self@.hand.skip(0) =~= self@.hand);
        assert(text@ + upper_hand(self@.hand) =~= upper_hand(self@.hand));
        while i < self.hand.len()
            invariant
                i <= self.hand.len(),
                text@ + upper_hand(self@.hand.skip(i as int)) == upper_hand(self@.hand),
            decreases self.hand.len() - i,
        {
            let ghost rest = self@.hand.skip(i as int);
            let ghost before = text@;
            text.append("|");
            text.append(self.hand[i].symbol.as_str());
            proof {
                assert(rest.drop_first() =~= self@.hand.skip(i + 1));
                assert(rest[0] == self@.hand[i as int]);
                assert(text@ + upper_hand(self@.hand.skip(i + 1)) =~= before + upper_hand(rest));
            }
            i = i + 1;
        }
        text.append("|");
        assert(upper_hand(self@.hand.skip(i as int)) == "|"@);
        text
    }

    /// The lower line of the hand as it is shown: the atomic numbers.
    pub fn LowerHandText(&self) -> (text: String)
        ensures
            text@ == lower_hand(self@.hand),
    {
        let mut text = String::new();
        let mut i: usize = 0;
        assert(self@.hand.skip(0) =~= self@.hand);
        assert(text@ + lower_hand(self@.hand) =~= lower_hand(self@.hand));
        while i < self.hand.len()
            invariant
                i <= self.hand.len(),
                text@ + lower_hand(self@.hand.skip(i as int)) == lower_hand(self@.hand),
            decreases self.hand.len() - i,
        {
            let ghost rest = self@.hand.skip(i as int);
            let ghost before = text@;
            text.append("|");
            let number = decimal_text(self.hand[i].atomic_number);
            text.append(number.as_str());
            if self.hand[i].atomic_number < 10 {
                text.append(" ");
            }
            proof {
                assert(rest.drop_first() =~= self@.hand.skip(i + 1));
                assert(rest[0] == self@.hand[i as int]);
                assert(text@ + lower_hand(self@.hand.skip(i + 1)) =~= before + lower_hand(rest));
            }
            i = i + 1;
        }
        text.append("|");
        assert(lower_hand(self@.hand.skip(i as int)) == "|"@);
        text
    }
}

} // verus!
