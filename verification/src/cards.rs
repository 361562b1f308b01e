//! String-labelled cards for the single-player tables: the 52-card deck of
//! named suits and values, blackjack hand valuation with ace softening, and
//! the round verdict. The shuffled order is stated with the same seeded
//! Fisher-Yates specification the engine uses, so a round is replayable bit
//! for bit from its seed.

use vstd::prelude::*;

use crate::engine::{fy_rec, sat_add_u8, soften, spec_shuffled};
use crate::rng::seed_of;

verus! {

/// Character-for-character string equality.
pub fn str_eq(a: &str, b: &str) -> (r: bool)
    ensures
        r == (a@ == b@),
{
    let alen = a.unicode_len();
    let blen = b.unicode_len();
    if alen != blen {
        proof {
            assert(a@ != b@);
        }
        return false;
    }
    let mut k: usize = 0;
    while k < alen
        invariant
            k <= alen,
            alen == a@.len(),
            alen == b@.len(),
            forall|i: int| 0 <= i < k ==> a@[i] == b@[i],
        decreases alen - k,
    {
        if a.get_char(k) != b.get_char(k) {
            return false;
        }
        k += 1;
    }
    proof {
        assert(a@ =~= b@);
    }
    true
}

/// A playing card named by suit and value, with a display id of the form
/// `value_of_suit`.
#[derive(Debug)]
pub struct Card {
    pub suit: String,
    pub value: String,
    pub id: String,
}

#[verifier::ext_equal]
pub struct CardView {
    pub suit: Seq<char>,
    pub value: Seq<char>,
    pub id: Seq<char>,
}

impl View for Card {
    type V = CardView;

    open spec fn view(&self) -> CardView {
        CardView { suit: self.suit@, value: self.value@, id: self.id@ }
    }
}

/// The card that `Card::new` builds from a suit and value name.
pub open spec fn spec_card_new(suit: Seq<char>, value: Seq<char>) -> CardView {
    CardView { suit: suit, value: value, id: value + "_of_"@ + suit }
}

impl Card {
    pub fn new(suit: &str, value: &str) -> (r: Card)
        ensures
            r@ == spec_card_new(suit@, value@),
    {
        let mut id = String::from_str(value);
        id.append("_of_");
        id.append(suit);
        let r = Card { suit: String::from_str(suit), value: String::from_str(value), id };
        proof {
            assert(r@ =~= spec_card_new(suit@, value@));
        }
        r
    }
}

/// A copy of a card, field for field.
pub fn copy_card(c: &Card) -> (r: Card)
    ensures
        r@ == c@,
{
    let r = Card {
        suit: String::from_str(c.suit.as_str()),
        value: String::from_str(c.value.as_str()),
        id: String::from_str(c.id.as_str()),
    };
    proof {
        assert(r@ =~= c@);
    }
    r
}

/// An element-for-element copy of a hand or deck.
pub fn copy_hand(v: &Vec<Card>) -> (r: Vec<Card>)
    ensures
        r@.map_values(|c: Card| c@) == v@.map_values(|c: Card| c@),
        r@.len() == v@.len(),
{
    let mut r: Vec<Card> = Vec::new();
    let mut k: usize = 0;
    while k < v.len()
        invariant
            k <= v@.len(),
            r@.len() == k,
            forall|i: int| 0 <= i < k ==> (#[trigger] r@[i])@ == v@[i]@,
        decreases v@.len() - k,
    {
        r.push(copy_card(&v[k]));
        k += 1;
    }
    proof {
        assert(r@.map_values(|c: Card| c@) =~= v@.map_values(|c: Card| c@));
    }
    r
}

/// The blackjack face value of a card name: ace 11, face cards 10, numbered
/// cards their number; 0 for a name that is no card value.
pub open spec fn spec_value_points(v: Seq<char>) -> u8 {
    if v == "ace"@ {
        11
    } else if v == "king"@ || v == "queen"@ || v == "jack"@ || v == "10"@ {
        10
    } else if v == "9"@ {
        9
    } else if v == "8"@ {
        8
    } else if v == "7"@ {
        7
    } else if v == "6"@ {
        6
    } else if v == "5"@ {
        5
    } else if v == "4"@ {
        4
    } else if v == "3"@ {
        3
    } else if v == "2"@ {
        2
    } else {
        0
    }
}

/// Whether a string names one of the thirteen card values.
pub open spec fn is_valid_value(v: Seq<char>) -> bool {
    spec_value_points(v) != 0
}

/// Whether every card in the hand carries a real card value.
pub open spec fn valid_hand(cards: Seq<CardView>) -> bool {
    forall|i: int| 0 <= i < cards.len() ==> is_valid_value((#[trigger] cards[i]).value)
}

/// The blackjack face value of this card.
pub fn card_points(value: &str) -> (r: u8)
    ensures
        r == spec_value_points(value@),
{
    if str_eq(value, "ace") {
        11
    } else if str_eq(value, "king") || str_eq(value, "queen") || str_eq(value, "jack") || str_eq(
        value,
        "10",
    ) {
        10
    } else if str_eq(value, "9") {
        9
    } else if str_eq(value, "8") {
        8
    } else if str_eq(value, "7") {
        7
    } else if str_eq(value, "6") {
        6
    } else if str_eq(value, "5") {
        5
    } else if str_eq(value, "4") {
        4
    } else if str_eq(value, "3") {
        3
    } else if str_eq(value, "2") {
        2
    } else {
        0
    }
}

/// Saturating sum of the face values of a hand of string cards.
pub open spec fn raw_sum_str(cards: Seq<CardView>) -> u8
    decreases cards.len(),
{
    if cards.len() == 0 {
        0
    } else {
        sat_add_u8(raw_sum_str(cards.drop_last()), spec_value_points(cards.last().value))
    }
}

/// How many aces the hand holds.
pub open spec fn ace_count_str(cards: Seq<CardView>) -> nat
    decreases cards.len(),
{
    if cards.len() == 0 {
        0
    } else {
        ace_count_str(cards.drop_last()) + if cards.last().value == "ace"@ {
            1nat
        } else {
            0nat
        }
    }
}

/// Blackjack hand value: face values summed (ace 11), then 10 subtracted for
/// each ace still counted as 11 while the total exceeds 21.
pub open spec fn spec_hand_value_str(cards: Seq<CardView>) -> u8 {
    soften(raw_sum_str(cards), ace_count_str(cards))
}

/// Compute the blackjack value of a hand of string cards.
pub fn calculate_hand_value(cards: &Vec<Card>) -> (r: u8)
    ensures
        r == spec_hand_value_str(cards@.map_values(|c: Card| c@)),
{
    let ghost cv: Seq<CardView> = cards@.map_values(|c: Card| c@);
    let mut total: u8 = 0;
    let mut aces: usize = 0;
    let mut k: usize = 0;
    while k < cards.len()
        invariant
            k <= cards@.len(),
            cv == cards@.map_values(|c: Card| c@),
            cv.len() == cards@.len(),
            total == raw_sum_str(cv.take(k as int)),
            aces == ace_count_str(cv.take(k as int)),
            aces <= k,
        decreases cards@.len() - k,
    {
        let points = card_points(self_value(&cards[k]));
        total = total.saturating_add(points);
        if str_eq(self_value(&cards[k]), "ace") {
            aces += 1;
        }
        proof {
            assert(cv[k as int] == cards@[k as int]@);
            assert(cv.take(k + 1).drop_last() =~= cv.take(k as int));
            assert(cv.take(k + 1).last() == cv[k as int]);
        }
        k += 1;
    }
    proof {
        assert(cv.take(cv.len() as int) =~= cv);
    }
    while total > 21 && aces > 0
        invariant
            soften(total, aces as nat) == spec_hand_value_str(cv),
        decreases aces,
    {
        total -= 10;
        aces -= 1;
    }
    total
}

/// The value string of a card.
fn self_value(c: &Card) -> (r: &str)
    ensures
        r@ == c@.value,
{
    c.value.as_str()
}

/// How a finished blackjack round can end.
#[derive(Clone, Copy, Debug, PartialEq, Eq, Structural)]
pub enum GameResult {
    PlayerBlackjack,
    PlayerWin,
    DealerWin,
    PlayerBust,
    DealerBust,
    Push,
}

/// The verdict from the two final hands: busts decide first (a player bust
/// loses even if the dealer also busts), then the higher value wins, equal
/// values push.
pub open spec fn spec_determine_winner(p: Seq<CardView>, d: Seq<CardView>) -> GameResult {
    let pv = spec_hand_value_str(p);
    let dv = spec_hand_value_str(d);
    if pv > 21 {
        GameResult::PlayerBust
    } else if dv > 21 {
        GameResult::DealerBust
    } else if pv > dv {
        GameResult::PlayerWin
    } else if dv > pv {
        GameResult::DealerWin
    } else {
        GameResult::Push
    }
}

/// Decide the round from the player's and dealer's final hands.
pub fn determine_winner(player_hand: &Vec<Card>, dealer_hand: &Vec<Card>) -> (r: GameResult)
    ensures
        r == spec_determine_winner(
            player_hand@.map_values(|c: Card| c@),
            dealer_hand@.map_values(|c: Card| c@),
        ),
{
    let player_value = calculate_hand_value(player_hand);
    let dealer_value = calculate_hand_value(dealer_hand);
    if player_value > 21 {
        GameResult::PlayerBust
    } else if dealer_value > 21 {
        GameResult::DealerBust
    } else if player_value > dealer_value {
        GameResult::PlayerWin
    } else if dealer_value > player_value {
        GameResult::DealerWin
    } else {
        GameResult::Push
    }
}

/// The four suit names, in deck order.
pub open spec fn suit_name(s: int) -> Seq<char> {
    if s == 0 {
        "clubs"@
    } else if s == 1 {
        "diamonds"@
    } else if s == 2 {
        "hearts"@
    } else {
        "spades"@
    }
}

/// The thirteen value names, in deck order.
pub open spec fn value_name(v: int) -> Seq<char> {
    if v == 0 {
        "2"@
    } else if v == 1 {
        "3"@
    } else if v == 2 {
        "4"@
    } else if v == 3 {
        "5"@
    } else if v == 4 {
        "6"@
    } else if v == 5 {
        "7"@
    } else if v == 6 {
        "8"@
    } else if v == 7 {
        "9"@
    } else if v == 8 {
        "10"@
    } else if v == 9 {
        "jack"@
    } else if v == 10 {
        "queen"@
    } else {
        if v == 11 {
            "king"@
        } else {
            "ace"@
        }
    }
}

/// The suit name at position `s`.
pub fn suit_str(s: usize) -> (r: &'static str)
    requires
        s < 4,
    ensures
        r@ == suit_name(s as int),
{
    if s == 0 {
        "clubs"
    } else if s == 1 {
        "diamonds"
    } else if s == 2 {
        "hearts"
    } else {
        "spades"
    }
}

/// The value name at position `v`.
pub fn value_str(v: usize) -> (r: &'static str)
    requires
        v < 13,
    ensures
        r@ == value_name(v as int),
{
    if v == 0 {
        "2"
    } else if v == 1 {
        "3"
    } else if v == 2 {
        "4"
    } else if v == 3 {
        "5"
    } else if v == 4 {
        "6"
    } else if v == 5 {
        "7"
    } else if v == 6 {
        "8"
    } else if v == 7 {
        "9"
    } else if v == 8 {
        "10"
    } else if v == 9 {
        "jack"
    } else if v == 10 {
        "queen"
    } else if v == 11 {
        "king"
    } else {
        "ace"
    }
}

/// The ordered 52-card deck before any shuffle: suits in order, values in
/// order within each suit.
pub open spec fn spec_deck_cards() -> Seq<CardView> {
    Seq::new(52, |k: int| spec_card_new(suit_name(k / 13), value_name(k % 13)))
}

/// Deterministic enumeration of suit x value.
pub fn create_deck() -> (deck: Vec<Card>)
    ensures
        deck@.map_values(|c: Card| c@) == spec_deck_cards(),
        deck@.len() == 52,
{
    let mut deck: Vec<Card> = Vec::new();
    let mut k: usize = 0;
    while k < 52
        invariant
            k <= 52,
            deck@.len() == k,
            forall|i: int|
                0 <= i < k ==> (#[trigger] deck@[i])@ == spec_card_new(
                    suit_name(i / 13),
                    value_name(i % 13),
                ),
        decreases 52 - k,
    {
        deck.push(Card::new(suit_str(k / 13), value_str(k % 13)));
        k += 1;
    }
    proof {
        assert(deck@.map_values(|c: Card| c@) =~= spec_deck_cards());
    }
    deck
}

/// The identity permutation of `n` positions.
pub open spec fn identity_perm(n: nat) -> Seq<usize> {
    Seq::new(n, |i: int| i as usize)
}

proof fn lemma_fy_commute<T>(s: Seq<T>, p: Seq<usize>, state: u64, i: int)
    requires
        p.len() == s.len(),
        forall|k: int| 0 <= k < p.len() ==> (#[trigger] p[k]) < s.len(),
    ensures
        fy_rec(p, state, i).map_values(|b: usize| s[b as int]) == fy_rec(
            p.map_values(|b: usize| s[b as int]),
            state,
            i,
        ),
    decreases i,
{
    let mapped = p.map_values(|b: usize| s[b as int]);
    if i < 1 || i >= p.len() {
    } else {
        let ns = crate::rng::next_of(state);
        let j = (ns as int) % (i + 1);
        let p2 = p.update(i, p[j]).update(j, p[i]);
        let m2 = mapped.update(i, mapped[j]).update(j, mapped[i]);
        assert(p2.map_values(|b: usize| s[b as int]) =~= m2);
        lemma_fy_commute(s, p2, ns, i - 1);
    }
}

/// Shuffling any sequence is the same as shuffling the identity permutation
/// and reading the sequence through it.
pub proof fn lemma_shuffle_commute<T>(s: Seq<T>, seed: u64)
    requires
        s.len() <= usize::MAX,
    ensures
        spec_shuffled(s, seed) == spec_shuffled(identity_perm(s.len()), seed).map_values(
            |b: usize| s[b as int],
        ),
{
    let p = identity_perm(s.len());
    assert(p.map_values(|b: usize| s[b as int]) =~= s);
    lemma_fy_commute(s, p, seed_of(seed), s.len() - 1);
}

/// Every position of a shuffled identity permutation holds a valid index.
pub proof fn lemma_shuffled_perm_bounds(n: nat, seed: u64)
    ensures
        spec_shuffled(identity_perm(n), seed).len() == n,
        forall|k: int|
            0 <= k < n ==> (#[trigger] spec_shuffled(identity_perm(n), seed)[k]) < n,
{
    broadcast use vstd::seq_lib::group_to_multiset_ensures;

    let p = identity_perm(n);
    let sh = spec_shuffled(p, seed);
    crate::engine::lemma_shuffled_multiset(p, seed);
    assert forall|k: int| 0 <= k < n implies (#[trigger] sh[k]) < n by {
        assert(sh.contains(sh[k]));
        assert(sh.to_multiset().count(sh[k]) > 0);
        assert(p.to_multiset().count(sh[k]) > 0);
        assert(p.contains(sh[k]));
        let m = choose|m: int| 0 <= m < p.len() && p[m] == sh[k];
        assert(p[m] == m as usize);
    }
}

/// The card at position `k` of the ordered deck.
pub fn card_from_deck_index(k: usize) -> (r: Card)
    requires
        k < 52,
    ensures
        r@ == spec_deck_cards()[k as int],
{
    Card::new(suit_str(k / 13), value_str(k % 13))
}

/// Build the ordered deck and shuffle it with the seeded Fisher-Yates pass.
pub fn shuffled_deck(seed: u64) -> (deck: Vec<Card>)
    ensures
        deck@.map_values(|c: Card| c@) == spec_shuffled(spec_deck_cards(), seed),
        deck@.len() == 52,
{
    let mut perm: Vec<usize> = Vec::new();
    let mut k: usize = 0;
    while k < 52
        invariant
            k <= 52,
            perm@.len() == k,
            forall|i: int| 0 <= i < k ==> (#[trigger] perm@[i]) == i as usize,
        decreases 52 - k,
    {
        perm.push(k);
        k += 1;
    }
    proof {
        assert(perm@ =~= identity_perm(52));
    }
    crate::engine::shuffle(&mut perm, seed);
    proof {
        lemma_shuffled_perm_bounds(52, seed);
    }
    let mut deck: Vec<Card> = Vec::new();
    let mut k2: usize = 0;
    while k2 < 52
        invariant
            k2 <= 52,
            deck@.len() == k2,
            perm@ == spec_shuffled(identity_perm(52), seed),
            perm@.len() == 52,
            forall|i: int| 0 <= i < 52 ==> (#[trigger] perm@[i]) < 52,
            forall|i: int|
                0 <= i < k2 ==> (#[trigger] deck@[i])@ == spec_deck_cards()[perm@[i] as int],
        decreases 52 - k2,
    {
        deck.push(card_from_deck_index(perm[k2]));
        k2 += 1;
    }
    proof {
        lemma_shuffle_commute(spec_deck_cards(), seed);
        assert(deck@.map_values(|c: Card| c@) =~= spec_shuffled(spec_deck_cards(), seed));
    }
    deck
}

/// Pop the next card from the end of the deck; the caller must already have
/// checked that the deck is not exhausted.
pub fn draw_card(deck: &mut Vec<Card>) -> (card: Card)
    requires
        old(deck)@.len() > 0,
    ensures
        card@ == old(deck)@.map_values(|c: Card| c@).last(),
        final(deck)@.map_values(|c: Card| c@) == old(deck)@.map_values(|c: Card| c@).drop_last(),
        final(deck)@.len() == old(deck)@.len() - 1,
{
    let card = deck.pop().unwrap();
    proof {
        assert(deck@.map_values(|c: Card| c@) =~= old(deck)@.map_values(
            |c: Card| c@,
        ).drop_last());
    }
    card
}

} // verus!
