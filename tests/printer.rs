use high_card::cards::card_printer::display_hand;
use high_card::cards::{Card, CardState, Rank, Suit};

fn shown(suit: Suit, rank: Rank) -> Card {
    let mut c = Card::new(suit, rank);
    c.toggle();
    c
}

/// The text as a terminal shows it: colour codes removed.
fn on_screen(line: &str) -> String {
    let mut out = String::new();
    let mut in_code = false;
    for ch in line.chars() {
        if ch == '\u{1b}' {
            in_code = true;
        } else if in_code {
            if ch == 'm' {
                in_code = false;
            }
        } else {
            out.push(ch);
        }
    }
    out
}

#[test]
fn renders_three_visible_cards() {
    let hand = vec![
        shown(Suit::Spades, Rank::King),
        shown(Suit::Hearts, Rank::Four),
        shown(Suit::Clubs, Rank::Eight),
    ];
    let lines = display_hand(&hand, false);
    assert_eq!(lines.len(), 7);
    assert_eq!(lines[0], "*---------* *---------* *---------*");
    assert_eq!(lines[1], "| K       | | 4       | | 8       |");
    assert_eq!(lines[2], "|         | |         | |         |");
    assert_eq!(
        lines[3],
        "|    \u{1b}[37m♠\u{1b}[0m    | |    \u{1b}[31m♥\u{1b}[0m    | |    \u{1b}[37m♣\u{1b}[0m    |"
    );
    assert_eq!(on_screen(&lines[3]), "|    ♠    | |    ♥    | |    ♣    |");
    assert_eq!(lines[4], "|         | |         | |         |");
    assert_eq!(lines[5], "|       K | |       4 | |       8 |");
    assert_eq!(lines[6], "*---------* *---------* *---------*");
}

#[test]
fn renders_index_row() {
    let hand = vec![
        shown(Suit::Spades, Rank::Two),
        Card::new(Suit::Hearts, Rank::Five),
    ];
    let lines = display_hand(&hand, true);
    assert_eq!(lines.len(), 8);
    assert_eq!(lines[7], "     0           1     ");
}

#[test]
fn every_line_has_the_same_width() {
    let pool = [
        shown(Suit::Spades, Rank::Ten),
        Card::new(Suit::Diamonds, Rank::Ace),
        shown(Suit::Hearts, Rank::Two),
        shown(Suit::Clubs, Rank::Queen),
        Card::new(Suit::Spades, Rank::Seven),
    ];
    for n in 0..=5usize {
        let hand: Vec<Card> = pool[..n].to_vec();
        let lines = display_hand(&hand, true);
        assert_eq!(lines.len(), 8);
        let width = if n == 0 { 0 } else { 12 * n - 1 };
        for line in lines.iter() {
            assert_eq!(on_screen(line).chars().count(), width);
        }
    }
}

#[test]
fn empty_hand_renders_empty_lines() {
    let lines = display_hand(&Vec::new(), false);
    assert_eq!(lines.len(), 7);
    assert!(lines.iter().all(|l| l.is_empty()));
}

#[test]
fn hidden_card_is_masked_and_restored() {
    let mut hand = vec![
        shown(Suit::Diamonds, Rank::Jack),
        shown(Suit::Clubs, Rank::Three),
    ];
    let before = display_hand(&hand, true);
    hand[1].toggle();
    assert_eq!(hand[1].state, CardState::Hidden);
    let masked = display_hand(&hand, true);
    assert_eq!(masked[0], before[0]);
    assert_eq!(masked[6], before[6]);
    assert_eq!(masked[7], before[7]);
    for row in 1..6 {
        let screen = on_screen(&masked[row]);
        let cells: Vec<&str> = screen.split(' ').filter(|s| !s.is_empty()).collect();
        assert_eq!(cells.last(), Some(&"|#########|"));
        assert!(!screen.contains('3'));
        assert!(!screen.contains('♣'));
    }
    assert_eq!(masked[1], "| J       | |#########|");
    assert_eq!(masked[5], "|       J | |#########|");
    hand[1].toggle();
    assert_eq!(display_hand(&hand, true), before);
}

#[test]
fn ten_keeps_column_width() {
    let hand = vec![shown(Suit::Hearts, Rank::Ten), shown(Suit::Hearts, Rank::Nine)];
    let lines = display_hand(&hand, false);
    assert_eq!(lines[1], "| 10      | | 9       |");
    assert_eq!(lines[5], "|      10 | |       9 |");
    for line in lines.iter() {
        assert_eq!(on_screen(line).chars().count(), 23);
    }
}
