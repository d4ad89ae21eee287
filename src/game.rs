//! The rules of a round: the configured counts, dealing from the deck and
//! finding the best card or hand.

use crate::cards::{full_deck, Card, DeckBuilder};
use crate::text::{decimal, decimal_text};
use rand::seq::SliceRandom;
use vstd::prelude::*;

verus! {

/// Fewest cards a hand may be configured to hold.
pub const MIN_CARDS: u8 = 3;

/// Most cards a hand may be configured to hold.
pub const MAX_CARDS: u8 = 5;

/// Fewest players a game may be configured for.
pub const MIN_PLAYERS: u8 = 2;

/// Most players a game may be configured for.
pub const MAX_PLAYERS: u8 = 5;

/// Why a game configuration was refused.
#[derive(Debug, Clone, Copy, PartialEq, Eq, Structural)]
pub enum ConfigError {
    /// Fewer cards per hand than `MIN_CARDS`.
    TooFewCards,
    /// More cards per hand than `MAX_CARDS`.
    TooManyCards,
    /// Fewer players than `MIN_PLAYERS`.
    TooFewPlayers,
    /// More players than `MAX_PLAYERS`.
    TooManyPlayers,
}

/// The options of a game, checked as they are set.
#[derive(Debug, Clone, Copy, PartialEq, Eq, Structural)]
pub struct GameBuilder {
    pub card_count: u8,
    pub player_count: u8,
}

impl GameBuilder {
    /// Both counts lie in their allowed ranges.
    pub open spec fn wf(self) -> bool {
        MIN_CARDS <= self.card_count <= MAX_CARDS && MIN_PLAYERS <= self.player_count
            <= MAX_PLAYERS
    }

    /// Options of three cards a hand and two players.
    pub fn new() -> (r: GameBuilder)
        ensures
            r == (GameBuilder { card_count: 3, player_count: 2 }),
            r.wf(),
    {
        GameBuilder { card_count: 3, player_count: 2 }
    }

    /// Sets the number of cards a hand holds; refused outside 3..=5.
    pub fn max_cards(self, count: u8) -> (r: Result<GameBuilder, ConfigError>)
        ensures
            count < MIN_CARDS ==> r == Err::<GameBuilder, ConfigError>(ConfigError::TooFewCards),
            count > MAX_CARDS ==> r == Err::<GameBuilder, ConfigError>(ConfigError::TooManyCards),
            MIN_CARDS <= count <= MAX_CARDS ==> r == Ok::<GameBuilder, ConfigError>(
                GameBuilder { card_count: count, ..self },
            ),
    {
        if count < MIN_CARDS {
            Err(ConfigError::TooFewCards)
        } else if count > MAX_CARDS {
            Err(ConfigError::TooManyCards)
        } else {
            Ok(GameBuilder { card_count: count, player_count: self.player_count })
        }
    }

    /// Sets the number of players; refused outside 2..=5.
    pub fn players(self, count: u8) -> (r: Result<GameBuilder, ConfigError>)
        ensures
            count < MIN_PLAYERS ==> r == Err::<GameBuilder, ConfigError>(
                ConfigError::TooFewPlayers,
            ),
            count > MAX_PLAYERS ==> r == Err::<GameBuilder, ConfigError>(
                ConfigError::TooManyPlayers,
            ),
            MIN_PLAYERS <= count <= MAX_PLAYERS ==> r == Ok::<GameBuilder, ConfigError>(
                GameBuilder { player_count: count, ..self },
            ),
    {
        if count < MIN_PLAYERS {
            Err(ConfigError::TooFewPlayers)
        } else if count > MAX_PLAYERS {
            Err(ConfigError::TooManyPlayers)
        } else {
            Ok(GameBuilder { card_count: self.card_count, player_count: count })
        }
    }

    /// A new game with a full, unshuffled deck and nothing dealt or played.
    pub fn spawn(self) -> (r: Game)
        ensures
            r.deck@ == full_deck(),
            r.cards@.len() == 0,
            r.games_played == 0,
            r.wins == 0,
            r.card_count == self.card_count,
            r.player_count == self.player_count,
    {
        Game {
            deck: DeckBuilder::new(),
            cards: Vec::new(),
            games_played: 0,
            wins: 0,
            card_count: self.card_count,
            player_count: self.player_count,
        }
    }
}

/// The state of a game.
pub struct Game {
    /// The cards not dealt yet.
    pub deck: Vec<Card>,
    /// The cards of the current round.
    pub cards: Vec<Card>,
    pub games_played: usize,
    pub wins: usize,
    /// Cards dealt to each hand.
    pub card_count: u8,
    pub player_count: u8,
}

/// Relies on rand's `SliceRandom::shuffle` with the thread-local generator:
/// it only swaps elements, so the same cards come back in a new order.
#[verifier::external_body]
fn shuffle(cards: &mut Vec<Card>)
    ensures
        final(cards)@.len() == old(cards)@.len(),
        final(cards)@.to_multiset() == old(cards)@.to_multiset(),
{
    let mut rng = rand::thread_rng();
    cards.shuffle(&mut rng);
}

/// Index of the first card of greatest value; 0 when there is none.
pub open spec fn is_high_card(cards: Seq<Card>, r: int) -> bool {
    if cards.len() == 0 {
        r == 0
    } else {
        &&& 0 <= r < cards.len()
        &&& forall|j: int| 0 <= j < cards.len() ==> #[trigger] cards[j].spec_value() <= cards[r].spec_value()
        &&& forall|j: int| 0 <= j < r ==> #[trigger] cards[j].spec_value() < cards[r].spec_value()
    }
}

/// Sum of the values of the cards of a hand.
pub open spec fn hand_total(hand: Seq<Card>) -> nat
    decreases hand.len(),
{
    if hand.len() == 0 {
        0
    } else {
        hand_total(hand.drop_last()) + hand.last().spec_value()
    }
}

/// Index of the first hand whose total is strictly greatest of all.
pub open spec fn is_winner(hands: Seq<Seq<Card>>, r: int) -> bool {
    &&& 0 <= r < hands.len()
    &&& forall|j: int| 0 <= j < hands.len() ==> #[trigger] hand_total(hands[j]) <= hand_total(hands[r])
    &&& forall|j: int| 0 <= j < r ==> #[trigger] hand_total(hands[j]) < hand_total(hands[r])
}

/// The hand of player `p` when `count` cards each are dealt round-robin to
/// `players` players from the front of `deck`.
pub open spec fn dealt_hand(deck: Seq<Card>, players: nat, count: nat, p: nat) -> Seq<Card> {
    Seq::new(count, |r: int| deck[r * players + p])
}

/// The text that sums up a game.
pub open spec fn summary_text(wins: nat, played: nat, left: nat) -> Seq<char> {
    "Won "@ + decimal(wins) + " out of "@ + decimal(played) + " games.\nCards Left "@ + decimal(
        left,
    )
}

/// Value of a card: at most 44.
proof fn lemma_value_bound(c: Card)
    ensures
        c.spec_value() <= 44,
{
    assert(c.suit.weight() * c.rank.points() <= 4 * 11) by (nonlinear_arith)
        requires
            c.suit.weight() <= 4,
            c.rank.points() <= 11,
    ;
}

proof fn lemma_total_bound(hand: Seq<Card>)
    ensures
        hand_total(hand) <= 44 * hand.len(),
    decreases hand.len(),
{
    if hand.len() > 0 {
        lemma_total_bound(hand.drop_last());
        lemma_value_bound(hand.last());
    }
}

/// The sum of the values of the cards of `hand`.
pub fn hand_value(hand: &Vec<Card>) -> (r: u128)
    ensures
        r == hand_total(hand@),
{
    let mut total: u128 = 0;
    let mut i: usize = 0;
    while i < hand.len()
        invariant
            i <= hand.len(),
            total == hand_total(hand@.take(i as int)),
        decreases hand.len() - i,
    {
        proof {
            assert(hand@.take(i + 1).drop_last() =~= hand@.take(i as int));
            lemma_total_bound(hand@.take(i as int));
            lemma_value_bound(hand@[i as int]);
        }
        total = total + hand[i].value() as u128;
        i += 1;
    }
    assert(hand@.take(i as int) =~= hand@);
    total
}

/// The index of the first hand whose total is strictly greatest: ties go to
/// the earlier hand.
pub fn find_winner(hands: &Vec<Vec<Card>>) -> (r: usize)
    requires
        hands@.len() > 0,
    ensures
        is_winner(hands@.map_values(|h: Vec<Card>| h@), r as int),
{
    let ghost totals = hands@.map_values(|h: Vec<Card>| h@);
    let mut best: usize = 0;
    let mut best_total: u128 = hand_value(&hands[0]);
    let mut i: usize = 1;
    while i < hands.len()
        invariant
            1 <= i <= hands.len(),
            totals == hands@.map_values(|h: Vec<Card>| h@),
            best < i,
            best_total == hand_total(totals[best as int]),
            forall|j: int| 0 <= j < i ==> #[trigger] hand_total(totals[j]) <= best_total,
            forall|j: int| 0 <= j < best ==> #[trigger] hand_total(totals[j]) < best_total,
        decreases hands.len() - i,
    {
        let t = hand_value(&hands[i]);
        if t > best_total {
            best = i;
            best_total = t;
        }
        i += 1;
    }
    best
}

/// Whether some player's card of a round-robin deal is the card at
/// position `k` of the deck.
pub open spec fn is_dealt(players: nat, count: nat, k: int) -> bool {
    exists|p: int, r: int| 0 <= p < players && 0 <= r < count && #[trigger] (r * players + p) == k
}

/// Dealing `count` cards round-robin to each of `players` players gives
/// player `p` as their card `r` the card at position `r * players + p` of
/// the deck. Those positions are all below `players * count`, no two deals
/// share one, and every position below `players * count` is dealt. With the
/// rest of the deck left in place, no card is lost or dealt twice.
pub proof fn lemma_deal_partition(deck: Seq<Card>, players: nat, count: nat)
    requires
        players > 0,
        deck.len() >= players * count,
    ensures
        forall|p: int, r: int|
            0 <= p < players && 0 <= r < count ==> #[trigger] dealt_hand(
                deck,
                players,
                count,
                p as nat,
            )[r] == deck[r * players + p] && r * players + p < players * count,
        forall|p1: int, r1: int, p2: int, r2: int|
            0 <= p1 < players && 0 <= p2 < players && 0 <= r1 < count && 0 <= r2 < count && (p1
                != p2 || r1 != r2) ==> #[trigger] (r1 * players + p1) != #[trigger] (r2 * players
                + p2),
        forall|k: int| 0 <= k < players * count ==> #[trigger] is_dealt(players, count, k),
{
    let n = players as int;
    assert forall|p: int, r: int| 0 <= p < players && 0 <= r < count implies #[trigger] dealt_hand(
        deck,
        players,
        count,
        p as nat,
    )[r] == deck[r * players + p] && r * players + p < players * count by {
        assert(r * n + p < n * count) by (nonlinear_arith)
            requires
                0 <= p < n,
                0 <= r < count,
        ;
    }
    assert forall|p1: int, r1: int, p2: int, r2: int|
        0 <= p1 < players && 0 <= p2 < players && 0 <= r1 < count && 0 <= r2 < count && (p1 != p2
            || r1 != r2) implies #[trigger] (r1 * players + p1) != #[trigger] (r2 * players + p2) by {
        if r1 * n + p1 == r2 * n + p2 {
            assert(r1 == r2) by (nonlinear_arith)
                requires
                    r1 * n + p1 == r2 * n + p2,
                    0 <= p1 < n,
                    0 <= p2 < n,
            ;
        }
    }
    assert forall|k: int| 0 <= k < players * count implies #[trigger] is_dealt(
        players,
        count,
        k,
    ) by {
        vstd::arithmetic::div_mod::lemma_fundamental_div_mod(k, n);
        vstd::arithmetic::div_mod::lemma_mod_bound(k, n);
        let q = k / n;
        let m = k % n;
        assert(0 <= q < count) by (nonlinear_arith)
            requires
                k == n * q + m,
                0 <= m < n,
                0 <= k < n * count,
        ;
        assert(q * n + m == k) by (nonlinear_arith)
            requires
                k == n * q + m,
        ;
        assert(0 <= m < players && 0 <= q < count && q * players + m == k);
    }
}

impl Game {
    /// Shuffles the deck: the same cards, in a random order.
    pub fn shuffle_deck(&mut self)
        ensures
            final(self).deck@.len() == old(self).deck@.len(),
            final(self).deck@.to_multiset() == old(self).deck@.to_multiset(),
            final(self).cards == old(self).cards,
            final(self).games_played == old(self).games_played,
            final(self).wins == old(self).wins,
            final(self).card_count == old(self).card_count,
            final(self).player_count == old(self).player_count,
    {
        shuffle(&mut self.deck);
    }

    /// Moves the first `card_count` cards of the deck into the round's cards.
    pub fn take_cards(&mut self)
        requires
            old(self).deck@.len() >= old(self).card_count,
        ensures
            final(self).cards@ == old(self).deck@.take(old(self).card_count as int),
            final(self).deck@ == old(self).deck@.skip(old(self).card_count as int),
            final(self).games_played == old(self).games_played,
            final(self).wins == old(self).wins,
            final(self).card_count == old(self).card_count,
            final(self).player_count == old(self).player_count,
    {
        let mut rest = self.deck.split_off(self.card_count as usize);
        core::mem::swap(&mut self.deck, &mut rest);
        self.cards = rest;
        assert(self.cards@ =~= old(self).deck@.take(old(self).card_count as int));
        assert(self.deck@ =~= old(self).deck@.skip(old(self).card_count as int));
    }

    /// Shuffles the deck, then deals `card_count` cards from it into the
    /// round's cards: the deck and the dealt cards together are the cards
    /// the deck held before.
    pub fn deal_cards(&mut self)
        requires
            old(self).deck@.len() >= old(self).card_count,
        ensures
            final(self).cards@.len() == old(self).card_count,
            final(self).deck@.len() == old(self).deck@.len() - old(self).card_count,
            (final(self).cards@ + final(self).deck@).to_multiset() == old(
                self,
            ).deck@.to_multiset(),
            final(self).games_played == old(self).games_played,
            final(self).wins == old(self).wins,
            final(self).card_count == old(self).card_count,
            final(self).player_count == old(self).player_count,
    {
        self.shuffle_deck();
        let ghost shuffled = self.deck@;
        self.take_cards();
        assert(self.cards@ + self.deck@ =~= shuffled);
    }

    /// Deals `card_count` cards to each of `player_count` hands, one card
    /// to each hand in turn, from the front of the deck.
    pub fn deal_hands(&mut self) -> (r: Vec<Vec<Card>>)
        requires
            old(self).deck@.len() >= old(self).player_count * old(self).card_count,
        ensures
            r@.len() == old(self).player_count,
            forall|p: int|
                0 <= p < r@.len() ==> #[trigger] r@[p]@ == dealt_hand(
                    old(self).deck@,
                    old(self).player_count as nat,
                    old(self).card_count as nat,
                    p as nat,
                ),
            final(self).deck@ == old(self).deck@.skip(
                old(self).player_count * old(self).card_count,
            ),
            final(self).cards == old(self).cards,
            final(self).games_played == old(self).games_played,
            final(self).wins == old(self).wins,
            final(self).card_count == old(self).card_count,
            final(self).player_count == old(self).player_count,
    {
        let players = self.player_count as usize;
        let count = self.card_count as usize;
        let ghost deck = self.deck@;
        let mut hands: Vec<Vec<Card>> = Vec::new();
        let mut p: usize = 0;
        while p < players
            invariant
                p <= players,
                players <= 255,
                count <= 255,
                players == self.player_count,
                count == self.card_count,
                self.deck@ == deck,
                deck.len() >= players * count,
                hands@.len() == p,
                forall|q: int|
                    0 <= q < p ==> #[trigger] hands@[q]@ == dealt_hand(
                        deck,
                        players as nat,
                        count as nat,
                        q as nat,
                    ),
            decreases players - p,
        {
            let mut hand: Vec<Card> = Vec::new();
            let mut r: usize = 0;
            while r < count
                invariant
                    p < players,
                    players <= 255,
                    count <= 255,
                    r <= count,
                    self.deck@ == deck,
                    deck.len() >= players * count,
                    hand@ == dealt_hand(deck, players as nat, count as nat, p as nat).take(
                        r as int,
                    ),
                decreases count - r,
            {
                assert(r * players + p < players * count && players * count <= 255 * 255)
                    by (nonlinear_arith)
                    requires
                        r < count,
                        p < players,
                        players <= 255,
                        count <= 255,
                ;
                hand.push(self.deck[r * players + p]);
                assert(hand@ =~= dealt_hand(deck, players as nat, count as nat, p as nat).take(
                    r + 1,
                ));
                r += 1;
            }
            assert(hand@ =~= dealt_hand(deck, players as nat, count as nat, p as nat));
            hands.push(hand);
            p += 1;
        }
        assert(players * count <= 255 * 255) by (nonlinear_arith)
            requires
                players <= 255,
                count <= 255,
        ;
        let rest = self.deck.split_off(players * count);
        self.deck = rest;
        assert(self.deck@ =~= deck.skip(players * count));
        hands
    }

    /// The index of the first of the round's cards with the greatest value;
    /// 0 when there is none.
    pub fn find_high_card(&self) -> (r: usize)
        ensures
            is_high_card(self.cards@, r as int),
    {
        let mut index: usize = 0;
        let mut value: u32 = 0;
        let mut idx: usize = 0;
        while idx < self.cards.len()
            invariant
                idx <= self.cards@.len(),
                idx > 0 ==> index < idx && value == self.cards@[index as int].spec_value(),
                idx == 0 ==> index == 0 && value == 0,
                forall|j: int| 0 <= j < idx ==> #[trigger] self.cards@[j].spec_value() <= value,
                forall|j: int| 0 <= j < index ==> #[trigger] self.cards@[j].spec_value() < value,
            decreases self.cards@.len() - idx,
        {
            let v = self.cards[idx].value();
            proof {
                lemma_value_bound(self.cards@[idx as int]);
                assert(self.cards@[idx as int].suit.weight() >= 1);
                assert(self.cards@[idx as int].rank.points() >= 2);
                assert(v >= 1) by (nonlinear_arith)
                    requires
                        v == self.cards@[idx as int].suit.weight()
                            * self.cards@[idx as int].rank.points(),
                        self.cards@[idx as int].suit.weight() >= 1,
                        self.cards@[idx as int].rank.points() >= 2,
                ;
            }
            if v > value {
                value = v;
                index = idx;
            }
            idx += 1;
        }
        index
    }

    /// Counts one more game played.
    pub fn inc_gamesplayed(&mut self)
        requires
            old(self).games_played < usize::MAX,
        ensures
            final(self).games_played == old(self).games_played + 1,
            final(self).deck == old(self).deck,
            final(self).cards == old(self).cards,
            final(self).wins == old(self).wins,
            final(self).card_count == old(self).card_count,
            final(self).player_count == old(self).player_count,
    {
        self.games_played += 1;
    }

    /// Counts one more win.
    pub fn inc_wins(&mut self)
        requires
            old(self).wins < usize::MAX,
        ensures
            final(self).wins == old(self).wins + 1,
            final(self).deck == old(self).deck,
            final(self).cards == old(self).cards,
            final(self).games_played == old(self).games_played,
            final(self).card_count == old(self).card_count,
            final(self).player_count == old(self).player_count,
    {
        self.wins += 1;
    }

    /// Whether the deck holds too few cards for another round.
    pub fn out_of_cards(&self) -> (r: bool)
        ensures
            r == (self.deck@.len() < self.card_count),
    {
        self.deck.len() < self.card_count as usize
    }

    /// The game's score and the cards left, e.g.
    /// "Won 1 out of 2 games.\nCards Left 46".
    pub fn summary(&self) -> (r: String)
        ensures
            r@ == summary_text(self.wins as nat, self.games_played as nat, self.deck@.len()),
    {
        String::from_str("Won ").concat(decimal_text(self.wins).as_str()).concat(
            " out of ",
        ).concat(decimal_text(self.games_played).as_str()).concat(" games.\nCards Left ").concat(
            decimal_text(self.deck.len()).as_str(),
        )
    }
}

/// The card a player picks: the position typed, moved to the last card when
/// it lies past the end, or `fallback` when nothing usable was typed.
pub fn pick_choice(typed: Option<usize>, fallback: usize, hand_len: usize) -> (r: usize)
    requires
        hand_len > 0,
    ensures
        typed is None ==> r == fallback,
        typed is Some && typed->0 >= hand_len ==> r == hand_len - 1,
        typed is Some && typed->0 < hand_len ==> r == typed->0,
{
    match typed {
        Some(i) => if i > hand_len - 1 {
            hand_len - 1
        } else {
            i
        },
        None => fallback,
    }
}

} // verus!
