//! Abstractions and methods for building and interacting with a standard
//! 52-card deck.

use ansi_term::Colour;
use std::cmp::Ordering;
use vstd::prelude::*;

pub mod card_printer;

verus! {

/// Card suits, in their order: Spades, Diamonds, Hearts, Clubs.
#[derive(Debug, Clone, Copy, PartialEq, Eq, Structural, PartialOrd, Ord, Hash)]
pub enum Suit {
    Spades,
    Diamonds,
    Hearts,
    Clubs,
}

/// The colour a suit's symbol is painted in.
#[derive(Debug, Clone, Copy, PartialEq, Eq, Structural)]
pub enum Tint {
    Red,
    White,
}

impl Suit {
    /// Position of the suit in the suit order, from 0.
    pub open spec fn index(self) -> nat {
        match self {
            Suit::Spades => 0,
            Suit::Diamonds => 1,
            Suit::Hearts => 2,
            Suit::Clubs => 3,
        }
    }

    /// The suit's weight: Spades 1, Diamonds 2, Hearts 3, Clubs 4.
    pub open spec fn weight(self) -> nat {
        self.index() + 1
    }

    /// The suit at position `i` of the suit order (`i` in 0..4).
    pub open spec fn at(i: int) -> Suit {
        if i == 0 {
            Suit::Spades
        } else if i == 1 {
            Suit::Diamonds
        } else if i == 2 {
            Suit::Hearts
        } else {
            Suit::Clubs
        }
    }

    pub open spec fn spec_symbol(self) -> Seq<char> {
        match self {
            Suit::Spades => "♠"@,
            Suit::Diamonds => "♦"@,
            Suit::Hearts => "♥"@,
            Suit::Clubs => "♣"@,
        }
    }

    pub open spec fn spec_tint(self) -> Tint {
        match self {
            Suit::Spades | Suit::Clubs => Tint::White,
            Suit::Diamonds | Suit::Hearts => Tint::Red,
        }
    }

    /// The suit's name as it is written out.
    pub open spec fn spec_name(self) -> Seq<char> {
        match self {
            Suit::Spades => "Spades"@,
            Suit::Diamonds => "Diamonds"@,
            Suit::Hearts => "Hearts"@,
            Suit::Clubs => "Clubs"@,
        }
    }

    /// The suit at position `i` of the suit order.
    pub fn from_index(i: usize) -> (r: Suit)
        requires
            i < 4,
        ensures
            r == Suit::at(i as int),
            r.index() == i,
    {
        if i == 0 {
            Suit::Spades
        } else if i == 1 {
            Suit::Diamonds
        } else if i == 2 {
            Suit::Hearts
        } else {
            Suit::Clubs
        }
    }

    /// The suit's weight, as used in card values and ordering.
    pub fn ordinal(&self) -> (r: u32)
        ensures
            r == self.weight(),
    {
        match self {
            Suit::Spades => 1,
            Suit::Diamonds => 2,
            Suit::Hearts => 3,
            Suit::Clubs => 4,
        }
    }

    /// The suit's plain symbol glyph.
    pub fn symbol(&self) -> (r: &'static str)
        ensures
            r@ == self.spec_symbol(),
    {
        match self {
            Suit::Spades => "♠",
            Suit::Diamonds => "♦",
            Suit::Hearts => "♥",
            Suit::Clubs => "♣",
        }
    }

    /// The colour the suit's symbol is shown in: red for Diamonds and
    /// Hearts, white for Spades and Clubs.
    pub fn tint(&self) -> (r: Tint)
        ensures
            r == self.spec_tint(),
    {
        match self {
            Suit::Spades | Suit::Clubs => Tint::White,
            Suit::Diamonds | Suit::Hearts => Tint::Red,
        }
    }

    /// The suit's symbol as a terminal shows it: painted in the suit's tint.
    pub fn display(&self) -> (r: String)
        ensures
            r@ == painted(self.spec_tint(), self.spec_symbol()),
    {
        paint(self.tint(), self.symbol())
    }

    /// The suit's name, as `Debug` writes it.
    pub fn name(&self) -> (r: &'static str)
        ensures
            r@ == self.spec_name(),
    {
        match self {
            Suit::Spades => "Spades",
            Suit::Diamonds => "Diamonds",
            Suit::Hearts => "Hearts",
            Suit::Clubs => "Clubs",
        }
    }
}

/// The escape code that starts text in the given colour.
pub open spec fn colour_code(t: Tint) -> Seq<char> {
    match t {
        Tint::Red => "\x1b[31m"@,
        Tint::White => "\x1b[37m"@,
    }
}

/// The escape code that returns to the terminal's plain style.
pub open spec fn reset_code() -> Seq<char> {
    "\x1b[0m"@
}

/// `text` painted in the colour `t`: the colour's code, the text, a reset.
pub open spec fn painted(t: Tint, text: Seq<char>) -> Seq<char> {
    colour_code(t) + text + reset_code()
}

/// Relies on ansi_term's `Colour::paint` and the `Display` of the string it
/// returns: a foreground colour alone writes `ESC [ <code> m`, the text, and
/// `ESC [ 0 m`, with code 31 for red and 37 for white.
#[verifier::external_body]
fn paint(t: Tint, text: &str) -> (r: String)
    ensures
        r@ == painted(t, text@),
{
    let colour = match t {
        Tint::Red => Colour::Red,
        Tint::White => Colour::White,
    };
    colour.paint(text).to_string()
}

/// Card ranks, from Two up to Ace.
#[derive(Debug, Clone, Copy, PartialEq, Eq, Structural, PartialOrd, Ord, Hash)]
pub enum Rank {
    Two,
    Three,
    Four,
    Five,
    Six,
    Seven,
    Eight,
    Nine,
    Ten,
    Jack,
    Queen,
    King,
    Ace,
}

impl Rank {
    /// Position of the rank in the rank order, from 0 (Two) to 12 (Ace).
    pub open spec fn index(self) -> nat {
        match self {
            Rank::Two => 0,
            Rank::Three => 1,
            Rank::Four => 2,
            Rank::Five => 3,
            Rank::Six => 4,
            Rank::Seven => 5,
            Rank::Eight => 6,
            Rank::Nine => 7,
            Rank::Ten => 8,
            Rank::Jack => 9,
            Rank::Queen => 10,
            Rank::King => 11,
            Rank::Ace => 12,
        }
    }

    /// The rank at position `i` of the rank order (`i` in 0..13).
    pub open spec fn at(i: int) -> Rank {
        if i == 0 {
            Rank::Two
        } else if i == 1 {
            Rank::Three
        } else if i == 2 {
            Rank::Four
        } else if i == 3 {
            Rank::Five
        } else if i == 4 {
            Rank::Six
        } else if i == 5 {
            Rank::Seven
        } else if i == 6 {
            Rank::Eight
        } else if i == 7 {
            Rank::Nine
        } else if i == 8 {
            Rank::Ten
        } else if i == 9 {
            Rank::Jack
        } else if i == 10 {
            Rank::Queen
        } else if i == 11 {
            Rank::King
        } else {
            Rank::Ace
        }
    }

    /// Points of the rank: face value for Two to Nine, 10 for Ten and the
    /// court cards, 11 for Ace.
    pub open spec fn points(self) -> nat {
        match self {
            Rank::Two => 2,
            Rank::Three => 3,
            Rank::Four => 4,
            Rank::Five => 5,
            Rank::Six => 6,
            Rank::Seven => 7,
            Rank::Eight => 8,
            Rank::Nine => 9,
            Rank::Ten | Rank::Jack | Rank::Queen | Rank::King => 10,
            Rank::Ace => 11,
        }
    }

    /// The short label shown on a card face.
    pub open spec fn spec_label(self) -> Seq<char> {
        match self {
            Rank::Two => "2"@,
            Rank::Three => "3"@,
            Rank::Four => "4"@,
            Rank::Five => "5"@,
            Rank::Six => "6"@,
            Rank::Seven => "7"@,
            Rank::Eight => "8"@,
            Rank::Nine => "9"@,
            Rank::Ten => "10"@,
            Rank::Jack => "J"@,
            Rank::Queen => "Q"@,
            Rank::King => "K"@,
            Rank::Ace => "A"@,
        }
    }

    /// The rank's name as it is written out.
    pub open spec fn spec_name(self) -> Seq<char> {
        match self {
            Rank::Two => "Two"@,
            Rank::Three => "Three"@,
            Rank::Four => "Four"@,
            Rank::Five => "Five"@,
            Rank::Six => "Six"@,
            Rank::Seven => "Seven"@,
            Rank::Eight => "Eight"@,
            Rank::Nine => "Nine"@,
            Rank::Ten => "Ten"@,
            Rank::Jack => "Jack"@,
            Rank::Queen => "Queen"@,
            Rank::King => "King"@,
            Rank::Ace => "Ace"@,
        }
    }

    /// The rank at position `i` of the rank order.
    pub fn from_index(i: usize) -> (r: Rank)
        requires
            i < 13,
        ensures
            r == Rank::at(i as int),
            r.index() == i,
    {
        if i == 0 {
            Rank::Two
        } else if i == 1 {
            Rank::Three
        } else if i == 2 {
            Rank::Four
        } else if i == 3 {
            Rank::Five
        } else if i == 4 {
            Rank::Six
        } else if i == 5 {
            Rank::Seven
        } else if i == 6 {
            Rank::Eight
        } else if i == 7 {
            Rank::Nine
        } else if i == 8 {
            Rank::Ten
        } else if i == 9 {
            Rank::Jack
        } else if i == 10 {
            Rank::Queen
        } else if i == 11 {
            Rank::King
        } else {
            Rank::Ace
        }
    }

    /// The rank's point value.
    pub fn value(&self) -> (r: u32)
        ensures
            r == self.points(),
    {
        match self {
            Rank::Two => 2,
            Rank::Three => 3,
            Rank::Four => 4,
            Rank::Five => 5,
            Rank::Six => 6,
            Rank::Seven => 7,
            Rank::Eight => 8,
            Rank::Nine => 9,
            Rank::Ten => 10,
            Rank::Jack => 10,
            Rank::Queen => 10,
            Rank::King => 10,
            Rank::Ace => 11,
        }
    }

    /// The short label shown on a card face: "2" to "10", "J", "Q", "K", "A".
    pub fn label(&self) -> (r: &'static str)
        ensures
            r@ == self.spec_label(),
    {
        match self {
            Rank::Two => "2",
            Rank::Three => "3",
            Rank::Four => "4",
            Rank::Five => "5",
            Rank::Six => "6",
            Rank::Seven => "7",
            Rank::Eight => "8",
            Rank::Nine => "9",
            Rank::Ten => "10",
            Rank::Jack => "J",
            Rank::Queen => "Q",
            Rank::King => "K",
            Rank::Ace => "A",
        }
    }

    /// The rank's name, as `Debug` writes it.
    pub fn name(&self) -> (r: &'static str)
        ensures
            r@ == self.spec_name(),
    {
        match self {
            Rank::Two => "Two",
            Rank::Three => "Three",
            Rank::Four => "Four",
            Rank::Five => "Five",
            Rank::Six => "Six",
            Rank::Seven => "Seven",
            Rank::Eight => "Eight",
            Rank::Nine => "Nine",
            Rank::Ten => "Ten",
            Rank::Jack => "Jack",
            Rank::Queen => "Queen",
            Rank::King => "King",
            Rank::Ace => "Ace",
        }
    }
}

/// Whether a card shows its face.
#[derive(Debug, Clone, Copy, PartialEq, Eq, Structural, PartialOrd, Ord, Hash)]
pub enum CardState {
    Visible,
    Hidden,
}

impl CardState {
    pub open spec fn index(self) -> nat {
        match self {
            CardState::Visible => 0,
            CardState::Hidden => 1,
        }
    }
}

/// A single card: a suit, a rank and whether its face is shown.
#[derive(Debug, Clone, Copy, PartialEq, Eq, Structural, Ord)]
pub struct Card {
    pub suit: Suit,
    pub rank: Rank,
    pub state: CardState,
}

/// The card with `state` flipped between visible and hidden.
pub open spec fn toggled(c: Card) -> Card {
    Card {
        state: match c.state {
            CardState::Visible => CardState::Hidden,
            CardState::Hidden => CardState::Visible,
        },
        ..c
    }
}

/// Position of a card in the card order: by suit, then rank, then state.
pub open spec fn order_key(c: Card) -> nat {
    (c.suit.index() * 13 + c.rank.index()) * 2 + c.state.index()
}

/// How two cards compare: by suit, then by rank, then by state.
pub open spec fn compare(a: Card, b: Card) -> Ordering {
    if order_key(a) < order_key(b) {
        Ordering::Less
    } else if order_key(a) > order_key(b) {
        Ordering::Greater
    } else {
        Ordering::Equal
    }
}

impl Card {
    /// Flips the card between visible and hidden.
    pub fn toggle(&mut self)
        ensures
            *final(self) == toggled(*old(self)),
    {
        match self.state {
            CardState::Visible => self.state = CardState::Hidden,
            CardState::Hidden => self.state = CardState::Visible,
        }
    }

    /// A new, hidden card of the given suit and rank.
    pub fn new(suit: Suit, rank: Rank) -> (r: Card)
        ensures
            r == (Card { suit, rank, state: CardState::Hidden }),
    {
        Card { suit, rank, state: CardState::Hidden }
    }

    pub open spec fn spec_nomenclature(self) -> Seq<char> {
        self.rank.spec_name() + "\tof "@ + self.suit.spec_name() + "\t"@
    }

    pub open spec fn spec_value(self) -> nat {
        self.suit.weight() * self.rank.points()
    }

    /// The card's name, e.g. "Ace\tof Spades\t".
    pub fn nomenclature(&self) -> (r: String)
        ensures
            r@ == self.spec_nomenclature(),
    {
        String::from_str(self.rank.name()).concat("\tof ").concat(self.suit.name()).concat("\t")
    }

    /// The card's value: the suit's weight times the rank's points.
    pub fn value(&self) -> (r: u32)
        ensures
            r == self.spec_value(),
    {
        let w = self.suit.ordinal();
        let p = self.rank.value();
        assert(w * p <= 44) by (nonlinear_arith)
            requires
                w <= 4,
                p <= 11,
        ;
        w * p
    }

    /// The card's position in the card order.
    fn order_key(&self) -> (r: u32)
        ensures
            r == order_key(*self),
    {
        let s: u32 = self.suit.ordinal() - 1;
        let k: u32 = match self.rank {
            Rank::Two => 0,
            Rank::Three => 1,
            Rank::Four => 2,
            Rank::Five => 3,
            Rank::Six => 4,
            Rank::Seven => 5,
            Rank::Eight => 6,
            Rank::Nine => 7,
            Rank::Ten => 8,
            Rank::Jack => 9,
            Rank::Queen => 10,
            Rank::King => 11,
            Rank::Ace => 12,
        };
        let v: u32 = match self.state {
            CardState::Visible => 0,
            CardState::Hidden => 1,
        };
        (s * 13 + k) * 2 + v
    }
}

impl PartialOrd for Card {
    fn partial_cmp(&self, other: &Card) -> (r: Option<Ordering>) {
        let a = self.order_key();
        let b = other.order_key();
        if a < b {
            Some(Ordering::Less)
        } else if a > b {
            Some(Ordering::Greater)
        } else {
            Some(Ordering::Equal)
        }
    }
}

impl vstd::std_specs::cmp::PartialOrdSpecImpl for Card {
    open spec fn obeys_partial_cmp_spec() -> bool {
        true
    }

    open spec fn partial_cmp_spec(&self, other: &Card) -> Option<Ordering> {
        Some(compare(*self, *other))
    }
}

/// The full deck in build order: for each rank from Two to Ace, the four
/// suits from Spades to Clubs, every card hidden.
pub open spec fn full_deck() -> Seq<Card> {
    Seq::new(
        52,
        |i: int| Card { suit: Suit::at(i % 4), rank: Rank::at(i / 4), state: CardState::Hidden },
    )
}

/// Builds a new deck of cards.
pub struct DeckBuilder;

impl DeckBuilder {
    /// The 52 cards of a standard deck, each hidden, rank by rank and within
    /// a rank suit by suit.
    pub fn new() -> (r: Vec<Card>)
        ensures
            r@ == full_deck(),
    {
        let mut deck: Vec<Card> = Vec::new();
        let mut r: usize = 0;
        while r < 13
            invariant
                r <= 13,
                deck@ == full_deck().take(4 * r as int),
            decreases 13 - r,
        {
            let mut s: usize = 0;
            while s < 4
                invariant
                    s <= 4,
                    r < 13,
                    deck@ == full_deck().take(4 * r as int + s as int),
                decreases 4 - s,
            {
                let ghost n: int = 4 * r as int + s as int;
                assert(n / 4 == r as int && n % 4 == s as int) by (nonlinear_arith)
                    requires
                        n == 4 * r as int + s as int,
                        s < 4,
                ;
                deck.push(Card::new(Suit::from_index(s), Rank::from_index(r)));
                assert(deck@ =~= full_deck().take(n + 1));
                s += 1;
            }
            r += 1;
        }
        assert(deck@ =~= full_deck());
        deck
    }
}

/// Whether some card of `deck` has suit `s` and rank `r`.
pub open spec fn holds_face(deck: Seq<Card>, s: Suit, r: Rank) -> bool {
    exists|i: int| 0 <= i < deck.len() && #[trigger] deck[i].suit == s && deck[i].rank == r
}

/// The deck that `DeckBuilder::new` builds holds 52 cards, and every pairing
/// of a suit with a rank is in it exactly once.
pub proof fn lemma_deck_complete()
    ensures
        full_deck().len() == 52,
        forall|s: Suit, r: Rank| holds_face(full_deck(), s, r),
        forall|i: int, j: int|
            0 <= i < 52 && 0 <= j < 52 && i != j ==> !(#[trigger] full_deck()[i].suit
                == #[trigger] full_deck()[j].suit && full_deck()[i].rank == full_deck()[j].rank),
{
    let deck = full_deck();
    assert forall|s: Suit, r: Rank| holds_face(deck, s, r) by {
        let i: int = 4 * r.index() as int + s.index() as int;
        assert(i / 4 == r.index() && i % 4 == s.index()) by (nonlinear_arith)
            requires
                i == 4 * r.index() + s.index(),
                s.index() < 4,
        ;
        assert(Suit::at(s.index() as int) == s);
        assert(Rank::at(r.index() as int) == r);
        assert(deck[i].suit == s && deck[i].rank == r);
    }
    assert forall|i: int, j: int|
        0 <= i < 52 && 0 <= j < 52 && i != j implies !(#[trigger] deck[i].suit == #[trigger] deck[j].suit
            && deck[i].rank == deck[j].rank) by {
        if deck[i].suit == deck[j].suit && deck[i].rank == deck[j].rank {
            assert(Suit::at(i % 4).index() == i % 4);
            assert(Suit::at(j % 4).index() == j % 4);
            assert(Rank::at(i / 4).index() == i / 4);
            assert(Rank::at(j / 4).index() == j / 4);
        }
    }
}

/// Cards are ordered by suit first, whatever their ranks, and within a suit
/// by rank. The order is a strict total order: two cards compare equal only
/// when they are the same card, reversing the operands reverses the result,
/// and it is transitive.
pub proof fn lemma_card_order(a: Card, b: Card, c: Card)
    ensures
        a.suit.index() < b.suit.index() ==> compare(a, b) == Ordering::Less,
        a.suit == b.suit && a.rank != b.rank ==> (compare(a, b) == Ordering::Less <==> a.rank.index()
            < b.rank.index()),
        compare(a, b) == Ordering::Equal <==> a == b,
        compare(a, b) == Ordering::Less <==> compare(b, a) == Ordering::Greater,
        compare(a, b) == Ordering::Less && compare(b, c) == Ordering::Less ==> compare(a, c)
            == Ordering::Less,
{
    if order_key(a) == order_key(b) {
        assert(a.state.index() == b.state.index());
        assert(a.rank.index() == b.rank.index());
        assert(a.suit.index() == b.suit.index());
    }
}

/// Cards in the card order, from lowest to highest.
pub open spec fn is_sorted(hand: Seq<Card>) -> bool {
    forall|i: int, j: int| 0 <= i < j < hand.len() ==> order_key(#[trigger] hand[i]) <= order_key(
        #[trigger] hand[j],
    )
}

/// Sorts a hand in the card order: by suit, then rank.
pub fn sort_hand(hand: &mut Vec<Card>)
    ensures
        is_sorted(final(hand)@),
        final(hand)@.to_multiset() == old(hand)@.to_multiset(),
{
    broadcast use vstd::seq_lib::group_to_multiset_ensures;

    let mut sorted: Vec<Card> = Vec::new();
    let mut i: usize = 0;
    while i < hand.len()
        invariant
            i <= hand@.len(),
            is_sorted(sorted@),
            sorted@.to_multiset() == hand@.take(i as int).to_multiset(),
        decreases hand@.len() - i,
    {
        let c = hand[i];
        let key = c.order_key();
        let mut pos: usize = 0;
        while pos < sorted.len() && sorted[pos].order_key() <= key
            invariant
                pos <= sorted@.len(),
                key == order_key(c),
                forall|k: int| 0 <= k < pos ==> order_key(#[trigger] sorted@[k]) <= order_key(c),
            decreases sorted@.len() - pos,
        {
            pos += 1;
        }
        let ghost before = sorted@;
        sorted.insert(pos, c);
        proof {
            assert(sorted@ == before.insert(pos as int, c));
            vstd::seq_lib::to_multiset_insert(before, pos as int, c);
            assert(hand@.take(i + 1) =~= hand@.take(i as int).push(c));
            vstd::seq_lib::to_multiset_build(hand@.take(i as int), c);
            assert forall|a: int, b: int| 0 <= a < b < sorted@.len() implies order_key(
                #[trigger] sorted@[a],
            ) <= order_key(#[trigger] sorted@[b]) by {
                if pos < before.len() {
                    assert(order_key(before[pos as int]) > order_key(c));
                }
            }
        }
        i += 1;
    }
    proof {
        assert(hand@.take(i as int) =~= hand@);
    }
    *hand = sorted;
}

/// Two sorted sequences of the same cards are equal. So sorting a sorted
/// hand gives it back unchanged, and sorting is idempotent; and since cards
/// that compare equal are the same card, every sort of a hand is stable.
pub proof fn lemma_sorted_unique(a: Seq<Card>, b: Seq<Card>)
    requires
        is_sorted(a),
        is_sorted(b),
        a.to_multiset() == b.to_multiset(),
    ensures
        a == b,
    decreases a.len(),
{
    broadcast use vstd::seq_lib::group_to_multiset_ensures;
    broadcast use vstd::multiset::group_multiset_axioms;

    vstd::seq_lib::to_multiset_len(a);
    vstd::seq_lib::to_multiset_len(b);
    if a.len() > 0 {
        let x = a.last();
        let y = b.last();
        assert(b.to_multiset().count(x) > 0);
        assert(a.to_multiset().count(y) > 0);
        assert(b.contains(x));
        assert(a.contains(y));
        let ix = choose|k: int| 0 <= k < b.len() && b[k] == x;
        let iy = choose|k: int| 0 <= k < a.len() && a[k] == y;
        if ix < b.len() - 1 {
            assert(order_key(b[ix]) <= order_key(b[b.len() - 1]));
        }
        if iy < a.len() - 1 {
            assert(order_key(a[iy]) <= order_key(a[a.len() - 1]));
        }
        assert(order_key(x) == order_key(y));
        lemma_card_order(x, y, x);
        assert(a =~= a.drop_last().push(x));
        assert(b =~= b.drop_last().push(y));
        vstd::seq_lib::to_multiset_build(a.drop_last(), x);
        vstd::seq_lib::to_multiset_build(b.drop_last(), y);
        assert(x == y);
        let ma = a.drop_last().to_multiset();
        let mb = b.drop_last().to_multiset();
        assert(ma.insert(x) == mb.insert(x));
        assert(ma =~= mb) by {
            assert forall|z: Card| ma.count(z) == mb.count(z) by {
                assert(ma.insert(x).count(z) == mb.insert(x).count(z));
            }
        }
        lemma_sorted_unique(a.drop_last(), b.drop_last());
    }
}

} // verus!
