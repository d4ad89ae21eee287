use high_card::cards::{
    sort_hand, Card, CardState, DeckBuilder, Rank, Suit,
};

#[test]
fn test_deck_sorts() {
    //(Spades, 2), (Diamonds, 5), (Spades, King), (Hearts, 3), (Clubs, Ace)
    let mut unsorted_deck: Vec<Card> = Vec::new();
    unsorted_deck.push(Card::new(Suit::Spades, Rank::Two));
    unsorted_deck.push(Card::new(Suit::Diamonds, Rank::Five));
    unsorted_deck.push(Card::new(Suit::Spades, Rank::King));
    unsorted_deck.push(Card::new(Suit::Hearts, Rank::Three));
    unsorted_deck.push(Card::new(Suit::Clubs, Rank::Ace));

    unsorted_deck.sort();

    //(Spades, 2), (Spades, King), (Diamonds, 5), (Hearts, 3), (Clubs, Ace)
    let mut sorted_deck: Vec<Card> = Vec::new();
    sorted_deck.push(Card::new(Suit::Spades, Rank::Two));
    sorted_deck.push(Card::new(Suit::Spades, Rank::King));
    sorted_deck.push(Card::new(Suit::Diamonds, Rank::Five));
    sorted_deck.push(Card::new(Suit::Hearts, Rank::Three));
    sorted_deck.push(Card::new(Suit::Clubs, Rank::Ace));

    assert_eq!(unsorted_deck, sorted_deck);
}

#[test]
fn test_deck_builder_length() {
    let test_deck = DeckBuilder::new();
    assert_eq!(test_deck.len(), 52);
}

#[test]
fn test_nomenclature() {
    let nomenclatures: Vec<String> = DeckBuilder::new()
        .iter()
        .map(|card| card.nomenclature())
        .collect();
    let expected = [
        "Two\tof Spades\t", "Two\tof Diamonds\t", "Two\tof Hearts\t", "Two\tof Clubs\t",
        "Three\tof Spades\t", "Three\tof Diamonds\t", "Three\tof Hearts\t", "Three\tof Clubs\t",
        "Four\tof Spades\t", "Four\tof Diamonds\t", "Four\tof Hearts\t", "Four\tof Clubs\t",
        "Five\tof Spades\t", "Five\tof Diamonds\t", "Five\tof Hearts\t", "Five\tof Clubs\t",
        "Six\tof Spades\t", "Six\tof Diamonds\t", "Six\tof Hearts\t", "Six\tof Clubs\t",
        "Seven\tof Spades\t", "Seven\tof Diamonds\t", "Seven\tof Hearts\t", "Seven\tof Clubs\t",
        "Eight\tof Spades\t", "Eight\tof Diamonds\t", "Eight\tof Hearts\t", "Eight\tof Clubs\t",
        "Nine\tof Spades\t", "Nine\tof Diamonds\t", "Nine\tof Hearts\t", "Nine\tof Clubs\t",
        "Ten\tof Spades\t", "Ten\tof Diamonds\t", "Ten\tof Hearts\t", "Ten\tof Clubs\t",
        "Jack\tof Spades\t", "Jack\tof Diamonds\t", "Jack\tof Hearts\t", "Jack\tof Clubs\t",
        "Queen\tof Spades\t", "Queen\tof Diamonds\t", "Queen\tof Hearts\t", "Queen\tof Clubs\t",
        "King\tof Spades\t", "King\tof Diamonds\t", "King\tof Hearts\t", "King\tof Clubs\t",
        "Ace\tof Spades\t", "Ace\tof Diamonds\t", "Ace\tof Hearts\t", "Ace\tof Clubs\t",
    ];
    assert_eq!(nomenclatures, expected);
}

#[test]
fn test_card_value() {
    let values: Vec<u32> = DeckBuilder::new().iter().map(|card| card.value()).collect();
    let expected: [u32; 52] = [
        2, 4, 6, 8, 3, 6, 9, 12, 4, 8, 12, 16, 5,
        10, 15, 20, 6, 12, 18, 24, 7, 14, 21, 28, 8, 16,
        24, 32, 9, 18, 27, 36, 10, 20, 30, 40, 10, 20, 30,
        40, 10, 20, 30, 40, 10, 20, 30, 40, 11, 22, 33, 44,
    ];
    assert_eq!(values, expected);
}

#[test]
fn test_rank_suit_display() {
    let cards: Vec<String> = DeckBuilder::new()
        .iter()
        .map(|card| format!("{} {}", card.suit.display(), card.rank.label()))
        .collect();
    let expected = [
        "\u{1b}[37m♠\u{1b}[0m 2", "\u{1b}[31m♦\u{1b}[0m 2", "\u{1b}[31m♥\u{1b}[0m 2", "\u{1b}[37m♣\u{1b}[0m 2",
        "\u{1b}[37m♠\u{1b}[0m 3", "\u{1b}[31m♦\u{1b}[0m 3", "\u{1b}[31m♥\u{1b}[0m 3", "\u{1b}[37m♣\u{1b}[0m 3",
        "\u{1b}[37m♠\u{1b}[0m 4", "\u{1b}[31m♦\u{1b}[0m 4", "\u{1b}[31m♥\u{1b}[0m 4", "\u{1b}[37m♣\u{1b}[0m 4",
        "\u{1b}[37m♠\u{1b}[0m 5", "\u{1b}[31m♦\u{1b}[0m 5", "\u{1b}[31m♥\u{1b}[0m 5", "\u{1b}[37m♣\u{1b}[0m 5",
        "\u{1b}[37m♠\u{1b}[0m 6", "\u{1b}[31m♦\u{1b}[0m 6", "\u{1b}[31m♥\u{1b}[0m 6", "\u{1b}[37m♣\u{1b}[0m 6",
        "\u{1b}[37m♠\u{1b}[0m 7", "\u{1b}[31m♦\u{1b}[0m 7", "\u{1b}[31m♥\u{1b}[0m 7", "\u{1b}[37m♣\u{1b}[0m 7",
        "\u{1b}[37m♠\u{1b}[0m 8", "\u{1b}[31m♦\u{1b}[0m 8", "\u{1b}[31m♥\u{1b}[0m 8", "\u{1b}[37m♣\u{1b}[0m 8",
        "\u{1b}[37m♠\u{1b}[0m 9", "\u{1b}[31m♦\u{1b}[0m 9", "\u{1b}[31m♥\u{1b}[0m 9", "\u{1b}[37m♣\u{1b}[0m 9",
        "\u{1b}[37m♠\u{1b}[0m 10", "\u{1b}[31m♦\u{1b}[0m 10", "\u{1b}[31m♥\u{1b}[0m 10", "\u{1b}[37m♣\u{1b}[0m 10",
        "\u{1b}[37m♠\u{1b}[0m J", "\u{1b}[31m♦\u{1b}[0m J", "\u{1b}[31m♥\u{1b}[0m J", "\u{1b}[37m♣\u{1b}[0m J",
        "\u{1b}[37m♠\u{1b}[0m Q", "\u{1b}[31m♦\u{1b}[0m Q", "\u{1b}[31m♥\u{1b}[0m Q", "\u{1b}[37m♣\u{1b}[0m Q",
        "\u{1b}[37m♠\u{1b}[0m K", "\u{1b}[31m♦\u{1b}[0m K", "\u{1b}[31m♥\u{1b}[0m K", "\u{1b}[37m♣\u{1b}[0m K",
        "\u{1b}[37m♠\u{1b}[0m A", "\u{1b}[31m♦\u{1b}[0m A", "\u{1b}[31m♥\u{1b}[0m A", "\u{1b}[37m♣\u{1b}[0m A",
    ];
    assert_eq!(cards, expected);
}

#[test]
fn deck_holds_every_card_once() {
    let deck = DeckBuilder::new();
    assert_eq!(deck.len(), 52);
    let suits = [Suit::Spades, Suit::Diamonds, Suit::Hearts, Suit::Clubs];
    let ranks = [
        Rank::Two, Rank::Three, Rank::Four, Rank::Five, Rank::Six, Rank::Seven, Rank::Eight,
        Rank::Nine, Rank::Ten, Rank::Jack, Rank::Queen, Rank::King, Rank::Ace,
    ];
    for s in suits.iter() {
        for r in ranks.iter() {
            let n = deck.iter().filter(|c| c.suit == *s && c.rank == *r).count();
            assert_eq!(n, 1);
        }
    }
    assert!(deck.iter().all(|c| c.state == CardState::Hidden));
    assert_eq!(deck[0], Card::new(Suit::Spades, Rank::Two));
    assert_eq!(deck[1], Card::new(Suit::Diamonds, Rank::Two));
    assert_eq!(deck[4], Card::new(Suit::Spades, Rank::Three));
    assert_eq!(deck[51], Card::new(Suit::Clubs, Rank::Ace));
}

#[test]
fn suit_orders_before_rank() {
    let low_suit_high_rank = Card::new(Suit::Spades, Rank::Ace);
    let high_suit_low_rank = Card::new(Suit::Clubs, Rank::Two);
    assert!(low_suit_high_rank < high_suit_low_rank);
    assert!(Card::new(Suit::Hearts, Rank::Three) < Card::new(Suit::Hearts, Rank::Four));
    assert!(Card::new(Suit::Hearts, Rank::King) > Card::new(Suit::Hearts, Rank::Ten));
    let a = Card::new(Suit::Diamonds, Rank::Jack);
    assert_eq!(a.partial_cmp(&a), Some(std::cmp::Ordering::Equal));
    assert_eq!(a.partial_cmp(&a), Some(a.cmp(&a)));
    let b = Card::new(Suit::Hearts, Rank::Two);
    assert_eq!(a.partial_cmp(&b), Some(a.cmp(&b)));
    assert_eq!(b.partial_cmp(&a), Some(b.cmp(&a)));
}

#[test]
fn sort_hand_orders_by_suit_then_rank() {
    let mut hand = vec![
        Card::new(Suit::Spades, Rank::Two),
        Card::new(Suit::Diamonds, Rank::Five),
        Card::new(Suit::Spades, Rank::King),
        Card::new(Suit::Hearts, Rank::Three),
        Card::new(Suit::Clubs, Rank::Ace),
    ];
    sort_hand(&mut hand);
    let expected = vec![
        Card::new(Suit::Spades, Rank::Two),
        Card::new(Suit::Spades, Rank::King),
        Card::new(Suit::Diamonds, Rank::Five),
        Card::new(Suit::Hearts, Rank::Three),
        Card::new(Suit::Clubs, Rank::Ace),
    ];
    assert_eq!(hand, expected);
    sort_hand(&mut hand);
    assert_eq!(hand, expected);
}

#[test]
fn sort_hand_matches_std_sort_on_whole_deck() {
    let mut deck = DeckBuilder::new();
    deck.reverse();
    let mut by_std = deck.clone();
    by_std.sort();
    sort_hand(&mut deck);
    assert_eq!(deck, by_std);
    let mut empty: Vec<Card> = Vec::new();
    sort_hand(&mut empty);
    assert!(empty.is_empty());
}

#[test]
fn value_is_suit_weight_times_points() {
    assert_eq!(Card::new(Suit::Spades, Rank::Ace).value(), 11);
    assert_eq!(Card::new(Suit::Clubs, Rank::King).value(), 40);
    assert_eq!(Card::new(Suit::Hearts, Rank::Two).value(), 6);
    assert_eq!(Card::new(Suit::Diamonds, Rank::Ten).value(), 20);
    assert_eq!(Rank::Queen.value(), 10);
    assert_eq!(Rank::Nine.value(), 9);
    assert_eq!(Suit::Hearts.ordinal(), 3);
}

#[test]
fn toggle_flips_state_both_ways() {
    let mut c = Card::new(Suit::Hearts, Rank::Queen);
    assert_eq!(c.state, CardState::Hidden);
    c.toggle();
    assert_eq!(c.state, CardState::Visible);
    assert_eq!(c.suit, Suit::Hearts);
    assert_eq!(c.rank, Rank::Queen);
    c.toggle();
    assert_eq!(c, Card::new(Suit::Hearts, Rank::Queen));
}

#[test]
fn suit_display_is_painted() {
    assert_eq!(Suit::Spades.display(), "\u{1b}[37m♠\u{1b}[0m");
    assert_eq!(Suit::Hearts.display(), "\u{1b}[31m♥\u{1b}[0m");
    assert_eq!(Suit::Diamonds.symbol(), "♦");
    assert_eq!(Card::new(Suit::Clubs, Rank::Ace).nomenclature(), "Ace\tof Clubs\t");
}
