//! Renders a hand of cards as ASCII art, one column per card:
//!
//! ```text
//! *---------* *---------* *---------*
//! | K       | | 4       | | 10      |
//! |         | |         | |         |
//! |    ♠    | |    ♥    | |    ♣    |
//! |         | |         | |         |
//! |       K | |       4 | |      10 |
//! *---------* *---------* *---------*
//! ```

use super::{painted, toggled, Card, CardState, Rank};
use crate::text::{decimal, decimal_text, lemma_single_digit};
use vstd::prelude::*;

verus! {

/// The rows of a rendered hand, top to bottom; `Blank` comes twice, and
/// `Index` only when indices are asked for.
#[derive(Debug, Clone, Copy, PartialEq, Eq, Structural)]
pub enum Row {
    Border,
    LeftRank,
    Blank,
    Face,
    RightRank,
    Index,
}

impl Row {
    /// Rows inside a card's frame, which a hidden card masks.
    pub open spec fn is_interior(self) -> bool {
        self != Row::Border && self != Row::Index
    }
}

pub open spec fn border() -> Seq<char> {
    "*---------*"@
}

/// What every interior cell of a hidden card shows.
pub open spec fn masked() -> Seq<char> {
    "|#########|"@
}

pub open spec fn blank() -> Seq<char> {
    "|         |"@
}

/// The padding beside a rank label: one column less for the two-character
/// label of a Ten.
pub open spec fn rank_pad(r: Rank) -> Seq<char> {
    if r == Rank::Ten {
        "      "@
    } else {
        "       "@
    }
}

/// The suit symbol in the face row: painted when `colour` holds, plain
/// otherwise. The plain text is what takes columns on screen.
pub open spec fn face_symbol(c: Card, colour: bool) -> Seq<char> {
    if colour {
        painted(c.suit.spec_tint(), c.suit.spec_symbol())
    } else {
        c.suit.spec_symbol()
    }
}

/// The cell of card `c`, at position `i` of its hand, in row `row`.
pub open spec fn cell(row: Row, c: Card, i: nat, colour: bool) -> Seq<char> {
    match row {
        Row::Border => border(),
        Row::Index => "     "@ + decimal(i) + "     "@,
        _ => if c.state == CardState::Hidden {
            masked()
        } else {
            match row {
                Row::LeftRank => "| "@ + c.rank.spec_label() + rank_pad(c.rank) + "|"@,
                Row::Face => "|    "@ + face_symbol(c, colour) + "    |"@,
                Row::RightRank => "|"@ + rank_pad(c.rank) + c.rank.spec_label() + " |"@,
                _ => blank(),
            }
        },
    }
}

/// The cells joined by single spaces.
pub open spec fn join(cells: Seq<Seq<char>>) -> Seq<char>
    decreases cells.len(),
{
    if cells.len() == 0 {
        Seq::empty()
    } else if cells.len() == 1 {
        cells[0]
    } else {
        join(cells.drop_last()) + " "@ + cells.last()
    }
}

pub open spec fn row_cells(row: Row, hand: Seq<Card>, colour: bool) -> Seq<Seq<char>> {
    Seq::new(hand.len(), |i: int| cell(row, hand[i], i as nat, colour))
}

/// The line of row `row` for the whole hand.
pub open spec fn row_line(row: Row, hand: Seq<Card>, colour: bool) -> Seq<char> {
    join(row_cells(row, hand, colour))
}

/// The rows that are rendered, in order.
pub open spec fn rows(show_index: bool) -> Seq<Row> {
    let card = seq![
        Row::Border,
        Row::LeftRank,
        Row::Blank,
        Row::Face,
        Row::Blank,
        Row::RightRank,
        Row::Border,
    ];
    if show_index {
        card.push(Row::Index)
    } else {
        card
    }
}

/// The rendered lines of a hand.
pub open spec fn rendered(hand: Seq<Card>, show_index: bool, colour: bool) -> Seq<Seq<char>> {
    rows(show_index).map_values(|row: Row| row_line(row, hand, colour))
}

fn cell_text(card: &Card, row: Row, i: usize) -> (r: String)
    ensures
        r@ == cell(row, *card, i as nat, true),
{
    match row {
        Row::Border => String::from_str("*---------*"),
        Row::Index => String::from_str("     ").concat(decimal_text(i).as_str()).concat("     "),
        _ => {
            if card.state == CardState::Hidden {
                String::from_str("|#########|")
            } else {
                let pad = if card.rank == Rank::Ten {
                    "      "
                } else {
                    "       "
                };
                match row {
                    Row::LeftRank => String::from_str("| ").concat(card.rank.label()).concat(
                        pad,
                    ).concat("|"),
                    Row::Face => String::from_str("|    ").concat(
                        card.suit.display().as_str(),
                    ).concat("    |"),
                    Row::RightRank => String::from_str("|").concat(pad).concat(
                        card.rank.label(),
                    ).concat(" |"),
                    _ => String::from_str("|         |"),
                }
            }
        },
    }
}

fn render_row(hand: &Vec<Card>, row: Row) -> (r: String)
    ensures
        r@ == row_line(row, hand@, true),
{
    let ghost cells = row_cells(row, hand@, true);
    let mut line = String::new();
    let mut i: usize = 0;
    while i < hand.len()
        invariant
            i <= hand.len(),
            cells == row_cells(row, hand@, true),
            line@ == join(cells.take(i as int)),
        decreases hand.len() - i,
    {
        let c = cell_text(&hand[i], row, i);
        if i > 0 {
            line.append(" ");
        }
        line.append(c.as_str());
        proof {
            let next = cells.take(i + 1);
            assert(next.drop_last() =~= cells.take(i as int));
            assert(line@ =~= join(next));
        }
        i += 1;
    }
    proof {
        assert(cells.take(i as int) =~= cells);
    }
    line
}

/// The lines that show `hand`: a border, the ranks at the top left, a blank
/// row, the suits, a blank row, the ranks at the bottom right and a border,
/// then the position of each card when `show_index` holds. Hidden cards show
/// a masked column.
pub fn display_hand(hand: &Vec<Card>, show_index: bool) -> (r: Vec<String>)
    ensures
        r@.len() == rows(show_index).len(),
        forall|k: int| 0 <= k < r@.len() ==> #[trigger] r@[k]@ == rendered(hand@, show_index, true)[k],
{
    let mut lines: Vec<String> = Vec::new();
    lines.push(render_row(hand, Row::Border));
    lines.push(render_row(hand, Row::LeftRank));
    lines.push(render_row(hand, Row::Blank));
    lines.push(render_row(hand, Row::Face));
    lines.push(render_row(hand, Row::Blank));
    lines.push(render_row(hand, Row::RightRank));
    lines.push(render_row(hand, Row::Border));
    if show_index {
        lines.push(render_row(hand, Row::Index));
    }
    lines
}

proof fn lemma_label_width(r: Rank)
    ensures
        r.spec_label().len() == if r == Rank::Ten {
            2nat
        } else {
            1nat
        },
        rank_pad(r).len() == if r == Rank::Ten {
            6nat
        } else {
            7nat
        },
{
    reveal_strlit("      ");
    reveal_strlit("       ");
    reveal_strlit("2");
    reveal_strlit("3");
    reveal_strlit("4");
    reveal_strlit("5");
    reveal_strlit("6");
    reveal_strlit("7");
    reveal_strlit("8");
    reveal_strlit("9");
    reveal_strlit("10");
    reveal_strlit("J");
    reveal_strlit("Q");
    reveal_strlit("K");
    reveal_strlit("A");
}

/// Without colour codes every cell is 11 characters wide; an index cell is
/// while its index has one digit.
pub proof fn lemma_cell_width(row: Row, c: Card, i: nat)
    requires
        row == Row::Index ==> i < 10,
    ensures
        cell(row, c, i, false).len() == 11,
{
    reveal_strlit("*---------*");
    reveal_strlit("|#########|");
    reveal_strlit("|         |");
    reveal_strlit("     ");
    reveal_strlit("| ");
    reveal_strlit("|");
    reveal_strlit(" |");
    reveal_strlit("|    ");
    reveal_strlit("    |");
    reveal_strlit("♠");
    reveal_strlit("♦");
    reveal_strlit("♥");
    reveal_strlit("♣");
    lemma_label_width(c.rank);
    if row == Row::Index {
        lemma_single_digit(i);
    }
}

proof fn lemma_join_width(cells: Seq<Seq<char>>, w: nat)
    requires
        forall|i: int| 0 <= i < cells.len() ==> (#[trigger] cells[i]).len() == w,
    ensures
        join(cells).len() == if cells.len() == 0 {
            0
        } else {
            cells.len() * (w + 1) - 1
        },
    decreases cells.len(),
{
    reveal_strlit(" ");
    if cells.len() > 1 {
        lemma_join_width(cells.drop_last(), w);
        assert((cells.len() - 1) * (w + 1) + w + 1 == cells.len() * (w + 1)) by (nonlinear_arith);
    }
}

/// For a hand of n cards, every rendered line is as wide on screen as n
/// card columns of 11 characters with a space between neighbours: 12n - 1,
/// none for an empty hand. On screen the colour codes around a suit symbol
/// take no column, so the width is that of the text without them. Index
/// labels keep that width while they have one digit, for up to ten cards.
pub proof fn lemma_line_width(hand: Seq<Card>, show_index: bool, k: int)
    requires
        0 <= k < rows(show_index).len(),
        show_index ==> hand.len() <= 10,
    ensures
        rendered(hand, show_index, false)[k].len() == if hand.len() == 0 {
            0
        } else {
            12 * hand.len() - 1
        },
{
    let row = rows(show_index)[k];
    let cells = row_cells(row, hand, false);
    assert forall|i: int| 0 <= i < cells.len() implies (#[trigger] cells[i]).len() == 11 by {
        lemma_cell_width(row, hand[i], i as nat);
    }
    lemma_join_width(cells, 11);
    assert(cells.len() == hand.len());
    assert(cells.len() * 12 == 12 * hand.len());
    assert(rendered(hand, show_index, false)[k] == row_line(row, hand, false));
}

/// Hiding a visible card masks every interior cell of its column, with no
/// rank or suit left in it, and leaves the border cells and every other
/// column as they were. Showing it again gives back the hand, and so its
/// rendering, exactly.
pub proof fn lemma_masking(hand: Seq<Card>, k: int, show_index: bool, colour: bool)
    requires
        0 <= k < hand.len(),
        hand[k].state == CardState::Visible,
    ensures
        ({
            let hidden = hand.update(k, toggled(hand[k]));
            &&& forall|row: Row| #[trigger]
                row.is_interior() ==> row_cells(row, hidden, colour)[k] == masked()
            &&& forall|row: Row, j: int|
                0 <= j < hand.len() && (j != k || !row.is_interior()) ==> #[trigger] row_cells(
                    row,
                    hidden,
                    colour,
                )[j] == row_cells(row, hand, colour)[j]
            &&& hidden.update(k, toggled(hidden[k])) == hand
            &&& rendered(hidden.update(k, toggled(hidden[k])), show_index, colour) == rendered(
                hand,
                show_index,
                colour,
            )
        }),
        forall|i: int| 0 <= i < masked().len() ==> masked()[i] == '|' || masked()[i] == '#',
{
    let hidden = hand.update(k, toggled(hand[k]));
    assert(hidden.update(k, toggled(hidden[k])) =~= hand);
    reveal_strlit("|#########|");
}

/// A Ten's label has two characters and one padding column less than the
/// one-character label of any other rank, so every cell of a Ten is as wide
/// as the same cell of any other card.
pub proof fn lemma_ten_alignment(ten: Card, other: Card, row: Row, i: nat)
    requires
        ten.rank == Rank::Ten,
        other.rank != Rank::Ten,
        row == Row::Index ==> i < 10,
    ensures
        ten.rank.spec_label().len() == other.rank.spec_label().len() + 1,
        rank_pad(ten.rank).len() + 1 == rank_pad(other.rank).len(),
        cell(row, ten, i, false).len() == cell(row, other, i, false).len(),
{
    lemma_label_width(ten.rank);
    lemma_label_width(other.rank);
    lemma_cell_width(row, ten, i);
    lemma_cell_width(row, other, i);
}

} // verus!
