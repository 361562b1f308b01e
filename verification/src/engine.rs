//! Deterministic card engine: an ordered deck, the seeded Fisher-Yates
//! shuffle, drawing, and blackjack hand valuation. Every game and the
//! bank-side replay call into these functions, so each one's result is pinned
//! down exactly by its contract.

use vstd::prelude::*;

use crate::rng::{next_of, seed_of, SimpleRng};

verus! {

/// Number of ranks in a suit; rank 0 is the ace, ranks 10 to 12 are the face
/// cards.
pub const RANKS: u8 = 13;

/// A card identified by rank (0 to 12) and suit (0 to 3).
#[derive(Clone, Copy, Debug, PartialEq, Eq, Structural)]
pub struct Card {
    pub rank: u8,
    pub suit: u8,
}

/// The card at position `index` of the canonical deck enumeration.
pub open spec fn spec_from_index(index: u8) -> Card {
    Card { rank: (index % 13) as u8, suit: (index / 13) as u8 }
}

/// Blackjack face value: ace counts 11, face cards 10, the rest rank + 1.
pub open spec fn spec_blackjack_value(card: Card) -> u8 {
    if card.rank == 0 {
        11
    } else if card.rank >= 10 {
        10
    } else {
        (card.rank + 1) as u8
    }
}

impl Card {
    pub fn from_index(index: u8) -> (r: Card)
        ensures
            r == spec_from_index(index),
    {
        let rank = index % RANKS;
        let suit = index / RANKS;
        Card { rank, suit }
    }

    pub fn to_index(&self) -> (r: u8)
        requires
            self.rank < 13,
            self.suit < 4,
        ensures
            r == self.suit * 13 + self.rank,
            spec_from_index(r) == *self,
    {
        self.suit * RANKS + self.rank
    }

    pub fn blackjack_value(&self) -> (r: u8)
        ensures
            r == spec_blackjack_value(*self),
    {
        if self.rank == 0 {
            11
        } else if self.rank >= 10 {
            10
        } else {
            self.rank + 1
        }
    }
}

/// The ordered deck of `52 * deck_count` cards before any shuffle: position
/// `k` holds the card with index `k % 52`.
pub open spec fn spec_deck(deck_count: nat) -> Seq<Card> {
    Seq::new(deck_count * 52, |k: int| spec_from_index((k % 52) as u8))
}

/// Deterministic enumeration of suit x rank, repeated `deck_count` times.
pub fn build_deck(deck_count: u8) -> (deck: Vec<Card>)
    ensures
        deck@ == spec_deck(deck_count as nat),
{
    let total: usize = (deck_count as usize) * 52;
    let mut deck: Vec<Card> = Vec::new();
    let mut k: usize = 0;
    while k < total
        invariant
            k <= total,
            total == deck_count * 52,
            deck@.len() == k,
            forall|i: int| 0 <= i < k ==> deck@[i] == spec_from_index((i % 52) as u8),
        decreases total - k,
    {
        deck.push(Card::from_index((k % 52) as u8));
        k += 1;
    }
    proof {
        assert(deck@ =~= spec_deck(deck_count as nat));
    }
    deck
}

/// One Fisher-Yates pass from position `i` down to 1, threading the xorshift
/// state: the index drawn at step `i` is the next stream value mod `i + 1`.
pub open spec fn fy_rec<T>(s: Seq<T>, state: u64, i: int) -> Seq<T>
    decreases i,
{
    if i < 1 || i >= s.len() {
        s
    } else {
        let ns = next_of(state);
        let j = (ns as int) % (i + 1);
        fy_rec(s.update(i, s[j]).update(j, s[i]), ns, i - 1)
    }
}

/// The deck order produced by shuffling `s` with seed `seed`.
pub open spec fn spec_shuffled<T>(s: Seq<T>, seed: u64) -> Seq<T> {
    fy_rec(s, seed_of(seed), s.len() - 1)
}

proof fn lemma_swap_multiset<T>(s: Seq<T>, i: int, j: int)
    requires
        0 <= i < s.len(),
        0 <= j < s.len(),
    ensures
        s.update(i, s[j]).update(j, s[i]).to_multiset() == s.to_multiset(),
{
    broadcast use vstd::seq_lib::to_multiset_update;
    broadcast use vstd::multiset::group_multiset_axioms;
    broadcast use vstd::seq_lib::group_to_multiset_ensures;

    let s1 = s.update(i, s[j]);
    let s2 = s1.update(j, s[i]);
    assert(s1[j] == s[j]);
    assert(s1.to_multiset() == s.to_multiset().insert(s[j]).remove(s[i]));
    assert(s2.to_multiset() == s1.to_multiset().insert(s[i]).remove(s1[j]));
    assert(s.to_multiset().count(s[i]) > 0);
    assert forall|x: T| s2.to_multiset().count(x) == s.to_multiset().count(x) by {
        assert(s.to_multiset().count(s[i]) > 0);
    }
    assert(s2.to_multiset() =~= s.to_multiset());
}

proof fn lemma_fy_rec_multiset<T>(s: Seq<T>, state: u64, i: int)
    ensures
        fy_rec(s, state, i).to_multiset() == s.to_multiset(),
        fy_rec(s, state, i).len() == s.len(),
    decreases i,
{
    if i < 1 || i >= s.len() {
    } else {
        let ns = next_of(state);
        let j = (ns as int) % (i + 1);
        let swapped = s.update(i, s[j]).update(j, s[i]);
        lemma_fy_rec_multiset(swapped, ns, i - 1);
        lemma_swap_multiset(s, i, j);
        assert(swapped.len() == s.len());
    }
}

/// A shuffle only rearranges: the shuffled deck holds the same cards.
pub proof fn lemma_shuffled_multiset<T>(s: Seq<T>, seed: u64)
    ensures
        spec_shuffled(s, seed).to_multiset() == s.to_multiset(),
        spec_shuffled(s, seed).len() == s.len(),
{
    lemma_fy_rec_multiset(s, seed_of(seed), s.len() - 1);
}

/// Seeded Fisher-Yates shuffle, from the last index down to 1. Identical
/// seeds give identical orders, which is what lets the bank replay a round
/// bit for bit.
pub fn shuffle<T: Copy>(deck: &mut Vec<T>, seed: u64)
    ensures
        final(deck)@ == spec_shuffled(old(deck)@, seed),
{
    let ghost orig: Seq<T> = deck@;
    let mut rng = SimpleRng::new(seed);
    let len: usize = deck.len();
    if len < 2 {
        proof {
            assert(fy_rec(orig, seed_of(seed), orig.len() - 1) =~= orig);
        }
        return ;
    }
    let mut i: usize = len - 1;
    while i >= 1
        invariant
            i < deck@.len(),
            deck@.len() == orig.len(),
            deck@.len() <= usize::MAX,
            fy_rec(orig, seed_of(seed), orig.len() - 1) == fy_rec(deck@, rng@, i as int),
        decreases i,
    {
        let draw: u64 = rng.next();
        let j: usize = (draw % ((i + 1) as u64)) as usize;
        let ghost before: Seq<T> = deck@;
        let a: T = deck[i];
        let b: T = deck[j];
        deck[i] = b;
        deck[j] = a;
        proof {
            assert(deck@ =~= before.update(i as int, before[j as int]).update(
                j as int,
                before[i as int],
            ));
        }
        i -= 1;
    }
    proof {
        assert(fy_rec(deck@, rng@, 0) =~= deck@);
    }
}

/// Pop the next card from the end of the deck; the caller must already have
/// checked that the deck is not exhausted.
pub fn draw_card(deck: &mut Vec<Card>) -> (card: Card)
    requires
        old(deck)@.len() > 0,
    ensures
        card == old(deck)@.last(),
        final(deck)@ == old(deck)@.drop_last(),
{
    let card = deck.pop().unwrap();
    card
}

/// `a + b` capped at 255, mirroring `u8::saturating_add`.
pub open spec fn sat_add_u8(a: u8, b: u8) -> u8 {
    if a + b > 255 {
        255
    } else {
        (a + b) as u8
    }
}

/// Saturating sum of the blackjack face values of `cards`.
pub open spec fn raw_sum(cards: Seq<Card>) -> u8
    decreases cards.len(),
{
    if cards.len() == 0 {
        0
    } else {
        sat_add_u8(raw_sum(cards.drop_last()), spec_blackjack_value(cards.last()))
    }
}

/// How many aces the hand holds.
pub open spec fn ace_count(cards: Seq<Card>) -> nat
    decreases cards.len(),
{
    if cards.len() == 0 {
        0
    } else {
        ace_count(cards.drop_last()) + if cards.last().rank == 0 {
            1nat
        } else {
            0nat
        }
    }
}

/// Re-count aces as 1 instead of 11 while the total is over 21 and an ace
/// remains.
pub open spec fn soften(total: u8, aces: nat) -> u8
    decreases aces,
{
    if total > 21 && aces > 0 {
        soften((total - 10) as u8, (aces - 1) as nat)
    } else {
        total
    }
}

/// Blackjack hand value: face values summed (ace 11, face cards 10), then 10
/// subtracted for each ace still counted as 11 while the total exceeds 21.
pub open spec fn spec_hand_value(cards: Seq<Card>) -> u8 {
    soften(raw_sum(cards), ace_count(cards))
}

/// Compute the blackjack value of a hand.
pub fn hand_value(cards: &Vec<Card>) -> (r: u8)
    ensures
        r == spec_hand_value(cards@),
{
    let mut total: u8 = 0;
    let mut aces: usize = 0;
    let mut k: usize = 0;
    while k < cards.len()
        invariant
            k <= cards@.len(),
            total == raw_sum(cards@.subrange(0, k as int)),
            aces == ace_count(cards@.subrange(0, k as int)),
            aces <= k,
        decreases cards@.len() - k,
    {
        let card = cards[k];
        total = total.saturating_add(card.blackjack_value());
        if card.rank == 0 {
            aces += 1;
        }
        proof {
            assert(cards@.subrange(0, k + 1).drop_last() =~= cards@.subrange(0, k as int));
            assert(cards@.subrange(0, k + 1).last() == cards@[k as int]);
        }
        k += 1;
    }
    proof {
        assert(cards@.subrange(0, cards@.len() as int) =~= cards@);
    }
    while total > 21 && aces > 0
        invariant
            soften(total, aces as nat) == spec_hand_value(cards@),
        decreases aces,
    {
        total -= 10;
        aces -= 1;
    }
    total
}

/// Baccarat points of a card: ace one, two through nine their number, tens
/// and face cards zero.
pub open spec fn spec_baccarat_points(card: Card) -> u8 {
    if card.rank == 0 {
        1
    } else if card.rank <= 8 {
        (card.rank + 1) as u8
    } else {
        0
    }
}

/// The sum of the hand's baccarat points, before the modulus.
pub open spec fn baccarat_points_sum(cards: Seq<Card>) -> int
    decreases cards.len(),
{
    if cards.len() == 0 {
        0
    } else {
        baccarat_points_sum(cards.drop_last()) + spec_baccarat_points(cards.last())
    }
}

/// Baccarat hand value: the points summed, modulo ten.
pub open spec fn spec_hand_value_baccarat(cards: Seq<Card>) -> u8 {
    (baccarat_points_sum(cards) % 10) as u8
}

proof fn lemma_baccarat_sum_nonneg(cards: Seq<Card>)
    ensures
        baccarat_points_sum(cards) >= 0,
    decreases cards.len(),
{
    if cards.len() > 0 {
        lemma_baccarat_sum_nonneg(cards.drop_last());
    }
}

/// Compute the baccarat value of a hand.
pub fn hand_value_baccarat(cards: &Vec<Card>) -> (r: u8)
    ensures
        r == spec_hand_value_baccarat(cards@),
{
    let mut acc: u8 = 0;
    let mut k: usize = 0;
    while k < cards.len()
        invariant
            k <= cards@.len(),
            acc < 10,
            acc == baccarat_points_sum(cards@.subrange(0, k as int)) % 10,
        decreases cards@.len() - k,
    {
        let card = cards[k];
        let p: u8 = if card.rank == 0 {
            1
        } else if card.rank <= 8 {
            card.rank + 1
        } else {
            0
        };
        acc = (acc + p) % 10;
        proof {
            assert(cards@.subrange(0, k + 1).drop_last() =~= cards@.subrange(0, k as int));
            assert(cards@.subrange(0, k + 1).last() == cards@[k as int]);
            let s = baccarat_points_sum(cards@.subrange(0, k as int));
            assert(s >= 0) by {
                lemma_baccarat_sum_nonneg(cards@.subrange(0, k as int));
            }
            assert((s % 10 + p) % 10 == (s + p) % 10) by (nonlinear_arith)
                requires
                    s >= 0,
                    0 <= p <= 9,
            ;
        }
        k += 1;
    }
    proof {
        assert(cards@.subrange(0, cards@.len() as int) =~= cards@);
        lemma_baccarat_sum_nonneg(cards@);
    }
    acc
}

/// The dealer keeps drawing while the hand value is below 17.
pub open spec fn spec_dealer_should_draw(value: u8) -> bool {
    value < 17
}

/// Whether the dealer must take another card at this hand value.
pub fn dealer_should_draw(value: u8) -> (r: bool)
    ensures
        r == spec_dealer_should_draw(value),
{
    value < 17
}

} // verus!
