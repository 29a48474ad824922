use vstd::prelude::*;
use crate::card::{Card, CardV, card_views, wf_card};

verus! {

/// A hand ready for evaluation: five well-formed cards. The evaluator's
/// predicates are written for a hand already sorted ascending by rank;
/// they do not sort, and compute the stated index pattern either way.
pub open spec fn wf_hand(h: Seq<CardV>) -> bool {
    &&& h.len() == 5
    &&& forall|i: int| 0 <= i < 5 ==> wf_card(#[trigger] h[i])
}

/// Four of a kind on a rank-sorted hand: the four equal ranks sit either
/// at positions 0..=3 or at positions 1..=4.
pub open spec fn spec_four_of_kind(h: Seq<CardV>) -> bool {
    ||| h[0].rank == h[3].rank
    ||| h[1].rank == h[4].rank
}

/// Two pairs on a rank-sorted hand: one of the three adjacent-pair
/// layouts, unless the hand is four of a kind, which is excluded here
/// by design.
pub open spec fn spec_two_pairs(h: Seq<CardV>) -> bool {
    &&& !spec_four_of_kind(h)
    &&& {
        ||| (h[0].rank == h[1].rank && h[2].rank == h[3].rank)
        ||| (h[0].rank == h[1].rank && h[3].rank == h[4].rank)
        ||| (h[1].rank == h[2].rank && h[3].rank == h[4].rank)
    }
}

/// Three of a kind on a rank-sorted hand: equal ranks two apart at one
/// of the three windows. Four-of-a-kind and full-house shapes also
/// match this pattern; the evaluator does not exclude them here.
pub open spec fn spec_three_of_kind(h: Seq<CardV>) -> bool {
    ||| h[0].rank == h[2].rank
    ||| h[1].rank == h[3].rank
    ||| h[2].rank == h[4].rank
}

/// A flush: all five suits equal the first card's suit.
pub open spec fn spec_flush(h: Seq<CardV>) -> bool {
    &&& h[0].suit == h[1].suit
    &&& h[0].suit == h[2].suit
    &&& h[0].suit == h[3].suit
    &&& h[0].suit == h[4].suit
}

/// A straight: five consecutive ranks not starting at the ace, or the
/// one ace-high sequence A-10-J-Q-K. The ace-low run A-2-3-4-5 is not a
/// straight here, by design.
pub open spec fn spec_straight(h: Seq<CardV>) -> bool {
    ||| (h[0].rank != 1 && h[0].rank + 1 == h[1].rank && h[1].rank + 1 == h[2].rank && h[2].rank
        + 1 == h[3].rank && h[3].rank + 1 == h[4].rank)
    ||| (h[0].rank == 1 && h[1].rank == 10 && h[2].rank == 11 && h[3].rank == 12 && h[4].rank
        == 13)
}

/// A full house is never detected: a known gap kept by design.
pub open spec fn spec_fullhouse(h: Seq<CardV>) -> bool {
    false
}

/// A royal flush is never detected: a known gap kept by design.
pub open spec fn spec_royal_flush(h: Seq<CardV>) -> bool {
    false
}

/// The hand categories the evaluator can report, in its fixed priority
/// order, and the no-win outcome.
#[derive(Clone, Copy, Debug, PartialEq, Eq, Structural)]
pub enum HandCategory {
    TwoPairs,
    ThreeOfKind,
    Straight,
    Flush,
    FullHouse,
    FourOfKind,
    RoyalFlush,
    NoWin,
}

/// The category of a hand: the first matching pattern of the fixed
/// priority order two pairs, three of a kind, straight, flush, full
/// house, four of a kind, royal flush. First match wins, never the
/// higher-paying later match.
pub open spec fn spec_category(h: Seq<CardV>) -> HandCategory {
    if spec_two_pairs(h) {
        HandCategory::TwoPairs
    } else if spec_three_of_kind(h) {
        HandCategory::ThreeOfKind
    } else if spec_straight(h) {
        HandCategory::Straight
    } else if spec_flush(h) {
        HandCategory::Flush
    } else if spec_fullhouse(h) {
        HandCategory::FullHouse
    } else if spec_four_of_kind(h) {
        HandCategory::FourOfKind
    } else if spec_royal_flush(h) {
        HandCategory::RoyalFlush
    } else {
        HandCategory::NoWin
    }
}

/// The payout multiplier of a category; -1 stands for a lost bet.
pub open spec fn spec_multiplier(c: HandCategory) -> int {
    match c {
        HandCategory::TwoPairs => 2,
        HandCategory::ThreeOfKind => 3,
        HandCategory::Straight => 4,
        HandCategory::Flush => 5,
        HandCategory::FullHouse => 8,
        HandCategory::FourOfKind => 25,
        HandCategory::RoyalFlush => 50,
        HandCategory::NoWin => -1,
    }
}

pub fn is_four_of_kind(hand: &Vec<Card>) -> (r: bool)
    requires
        wf_hand(card_views(hand@)),
    ensures
        r == spec_four_of_kind(card_views(hand@)),
{
    if (hand[0].rank == hand[3].rank) || (hand[1].rank == hand[4].rank) {
        return true;
    }
    false
}

pub fn is_two_pairs(hand: &Vec<Card>) -> (r: bool)
    requires
        wf_hand(card_views(hand@)),
    ensures
        r == spec_two_pairs(card_views(hand@)),
{
    if is_four_of_kind(hand) {
        return false;
    }
    if (hand[0].rank == hand[1].rank) && (hand[2].rank == hand[3].rank) {
        return true;
    } else if (hand[0].rank == hand[1].rank) && (hand[3].rank == hand[4].rank) {
        return true;
    } else if (hand[1].rank == hand[2].rank) && (hand[3].rank == hand[4].rank) {
        return true;
    }
    false
}

pub fn is_three_of_kind(hand: &Vec<Card>) -> (r: bool)
    requires
        wf_hand(card_views(hand@)),
    ensures
        r == spec_three_of_kind(card_views(hand@)),
{
    if (hand[0].rank == hand[2].rank) || (hand[1].rank == hand[3].rank) || (hand[2].rank
        == hand[4].rank) {
        return true;
    }
    false
}

pub fn is_flush(hand: &Vec<Card>) -> (r: bool)
    requires
        wf_hand(card_views(hand@)),
    ensures
        r == spec_flush(card_views(hand@)),
{
    (hand[0].suit == hand[1].suit) && (hand[0].suit == hand[2].suit) && (hand[0].suit
        == hand[3].suit) && (hand[0].suit == hand[4].suit)
}

pub fn is_straight(hand: &Vec<Card>) -> (r: bool)
    requires
        wf_hand(card_views(hand@)),
    ensures
        r == spec_straight(card_views(hand@)),
{
    proof {
        assert forall|i: int| 0 <= i < 5 implies hand@[i].rank <= 13 by {
            assert(wf_card(card_views(hand@)[i]));
        }
    }
    let mut reply: bool = false;
    if hand[0].rank != 1 && (hand[0].rank + 1 == hand[1].rank) && (hand[1].rank + 1
        == hand[2].rank) && (hand[2].rank + 1 == hand[3].rank) && (hand[3].rank + 1
        == hand[4].rank) {
        reply = true;
    }
    if (hand[0].rank == 1 && hand[4].rank == 13) && (hand[1].rank == 10) && hand[2].rank == 11
        && hand[3].rank == 12 {
        reply = true;
    }
    reply
}

pub fn is_fullhouse(hand: &Vec<Card>) -> (r: bool)
    requires
        wf_hand(card_views(hand@)),
    ensures
        r == spec_fullhouse(card_views(hand@)),
{
    false
}

pub fn is_royal_flush(hand: &Vec<Card>) -> (r: bool)
    requires
        wf_hand(card_views(hand@)),
    ensures
        r == spec_royal_flush(card_views(hand@)),
{
    false
}

/// Classifies a hand by the fixed first-match-wins priority order.
pub fn hand_category(hand: &Vec<Card>) -> (c: HandCategory)
    requires
        wf_hand(card_views(hand@)),
    ensures
        c == spec_category(card_views(hand@)),
{
    if is_two_pairs(hand) {
        HandCategory::TwoPairs
    } else if is_three_of_kind(hand) {
        HandCategory::ThreeOfKind
    } else if is_straight(hand) {
        HandCategory::Straight
    } else if is_flush(hand) {
        HandCategory::Flush
    } else if is_fullhouse(hand) {
        HandCategory::FullHouse
    } else if is_four_of_kind(hand) {
        HandCategory::FourOfKind
    } else if is_royal_flush(hand) {
        HandCategory::RoyalFlush
    } else {
        HandCategory::NoWin
    }
}

/// The winnings of a hand: the bet times the multiplier of the hand's
/// category, where a lost bet counts -1 times the bet.
pub fn check_hand(hand: &Vec<Card>, bet: i32) -> (win: i32)
    requires
        wf_hand(card_views(hand@)),
        0 <= bet,
        bet * 25 <= i32::MAX,
    ensures
        win == spec_multiplier(spec_category(card_views(hand@))) * bet,
{
    let cat = hand_category(hand);
    match cat {
        HandCategory::TwoPairs => bet * 2,
        HandCategory::ThreeOfKind => bet * 3,
        HandCategory::Straight => bet * 4,
        HandCategory::Flush => bet * 5,
        HandCategory::FullHouse => bet * 8,
        HandCategory::FourOfKind => bet * 25,
        HandCategory::RoyalFlush => bet * 50,
        HandCategory::NoWin => -bet,
    }
}

/// Priority law: a hand that matches both the two-pair pattern and the
/// three-of-a-kind pattern is reported as two pairs, the first match of
/// the fixed order, never the higher-paying one.
pub proof fn lemma_priority_first_match(h: Seq<CardV>)
    requires
        spec_two_pairs(h),
        spec_three_of_kind(h),
    ensures
        spec_category(h) == HandCategory::TwoPairs,
        spec_multiplier(spec_category(h)) == 2,
{
}

} // verus!
