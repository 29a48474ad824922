use vstd::prelude::*;
use vstd::string::*;
use crate::card::{Card, CardV, card_views, wf_card, wf_cards};
use crate::deck::{Deck, deal_cards};
use crate::eval::{check_hand, spec_category, spec_multiplier, wf_hand};

verus! {

broadcast use vstd::seq_lib::group_to_multiset_ensures;

/// The hand position a keep-selection character names, 0-indexed, or -1
/// where the character is not one of '1' through '5'.
pub open spec fn spec_keep_index(c: char) -> int {
    if c == '1' {
        0
    } else if c == '2' {
        1
    } else if c == '3' {
        2
    } else if c == '4' {
        3
    } else if c == '5' {
        4
    } else {
        -1
    }
}

/// A valid keep-selection line: every character is one of '1' to '5'.
pub open spec fn valid_selection(s: Seq<char>) -> bool {
    forall|i: int| 0 <= i < s.len() ==> spec_keep_index(#[trigger] s[i]) >= 0
}

/// Parses the keep-selection line: each character names a 1-indexed
/// position of the just-dealt hand. A line with any other character is
/// rejected as a whole.
pub fn parse_selection(s: &str) -> (r: Option<Vec<usize>>)
    ensures
        (r is Some) == valid_selection(s@),
        r matches Some(v) ==> v@.len() == s@.len(),
        r matches Some(v) ==> forall|i: int|
            0 <= i < s@.len() ==> #[trigger] v@[i] == spec_keep_index(s@[i]),
{
    let len = s.unicode_len();
    let mut v: Vec<usize> = Vec::new();
    let mut i: usize = 0;
    while i < len
        invariant
            0 <= i <= len,
            len == s@.len(),
            v@.len() == i,
            forall|k: int| 0 <= k < i ==> #[trigger] v@[k] == spec_keep_index(s@[k]),
        decreases len - i,
    {
        let c = s.get_char(i);
        let idx: usize = match c {
            '1' => 0,
            '2' => 1,
            '3' => 2,
            '4' => 3,
            '5' => 4,
            _ => {
                proof {
                    assert(spec_keep_index(s@[i as int]) == -1);
                }
                return None;
            },
        };
        v.push(idx);
        i = i + 1;
    }
    proof {
        assert forall|k: int| 0 <= k < s@.len() implies spec_keep_index(#[trigger] s@[k])
            >= 0 by {
            assert(v@[k] == spec_keep_index(s@[k]));
        }
    }
    Some(v)
}

/// Rebuilds the hand after the draw: the kept cards of the dealt hand,
/// in selection order, then cards dealt from the deck to reach five.
pub fn rebuild_hand(hand: &Vec<Card>, keeps: &Vec<usize>, deck: &mut Deck) -> (new_hand: Vec<
    Card,
>)
    requires
        wf_hand(card_views(hand@)),
        keeps@.len() <= 5,
        forall|i: int| 0 <= i < keeps@.len() ==> keeps@[i] < 5,
        old(deck)@.len() >= 5 - keeps@.len(),
        wf_cards(old(deck)@),
    ensures
        new_hand@.len() == 5,
        wf_hand(card_views(new_hand@)),
        forall|i: int|
            0 <= i < keeps@.len() ==> card_views(new_hand@)[i] == card_views(hand@)[keeps@[i] as int],
        forall|i: int|
            keeps@.len() <= i < 5 ==> card_views(new_hand@)[i] == old(deck)@[old(deck)@.len() - 1
                - (i - keeps@.len())],
        final(deck)@ == old(deck)@.take(old(deck)@.len() - (5 - keeps@.len())),
{
    let mut new_hand: Vec<Card> = Vec::new();
    let mut j: usize = 0;
    while j < keeps.len()
        invariant
            0 <= j <= keeps@.len() <= 5,
            wf_hand(card_views(hand@)),
            forall|i: int| 0 <= i < keeps@.len() ==> keeps@[i] < 5,
            new_hand@.len() == j,
            forall|i: int|
                0 <= i < j ==> (#[trigger] new_hand@[i])@ == hand@[keeps@[i] as int]@,
        decreases keeps@.len() - j,
    {
        let k = keeps[j];
        proof {
            assert(wf_card(card_views(hand@)[k as int]));
        }
        let c = Card::init(hand[k].rank, hand[k].suit);
        new_hand.push(c);
        j = j + 1;
    }
    let nbr = 5 - keeps.len();
    let mut extra = deal_cards(deck, nbr);
    let ghost kept: Seq<Card> = new_hand@;
    let ghost drawn: Seq<Card> = extra@;
    new_hand.append(&mut extra);
    proof {
        assert forall|i: int| 0 <= i < 5 implies (#[trigger] new_hand@[i])@ == (if i
            < keeps@.len() {
            hand@[keeps@[i] as int]@
        } else {
            old(deck)@[old(deck)@.len() - 1 - (i - keeps@.len())]
        }) by {
            assert(new_hand@[i] == (kept + drawn)[i]);
            if i >= keeps@.len() {
                assert(card_views(drawn)[i - keeps@.len()] == old(deck)@[old(deck)@.len() - 1 - (i
                    - keeps@.len())]);
            }
        }
        assert forall|i: int| 0 <= i < 5 implies #[trigger] card_views(new_hand@)[i]
            == new_hand@[i]@ by {}
        assert forall|i: int| 0 <= i < 5 implies wf_card(card_views(new_hand@)[i]) by {
            if i < keeps@.len() {
                assert(wf_card(card_views(hand@)[keeps@[i] as int]));
            } else {
                assert(wf_card(old(deck)@[old(deck)@.len() - 1 - (i - keeps@.len())]));
            }
        }
    }
    new_hand
}

/// Ranks never descend along the sequence.
pub open spec fn sorted_by_rank(h: Seq<CardV>) -> bool {
    forall|a: int, b: int| 0 <= a < b < h.len() ==> h[a].rank <= h[b].rank
}

proof fn lemma_card_views_remove(s: Seq<Card>, i: int)
    requires
        0 <= i < s.len(),
    ensures
        card_views(s.remove(i)) == card_views(s).remove(i),
{
    assert(card_views(s.remove(i)) =~= card_views(s).remove(i));
}

proof fn lemma_card_views_insert(s: Seq<Card>, i: int, c: Card)
    requires
        0 <= i <= s.len(),
    ensures
        card_views(s.insert(i, c)) == card_views(s).insert(i, c@),
{
    assert(card_views(s.insert(i, c)) =~= card_views(s).insert(i, c@));
}

/// Sorts the hand ascending by rank with an insertion sort. The cards
/// themselves are kept: the result holds the same cards as the input.
pub fn sort_hand(hand: &mut Vec<Card>)
    ensures
        final(hand)@.len() == old(hand)@.len(),
        sorted_by_rank(card_views(final(hand)@)),
        card_views(final(hand)@).to_multiset() == card_views(old(hand)@).to_multiset(),
        wf_cards(card_views(old(hand)@)) ==> wf_cards(card_views(final(hand)@)),
{
    let mut i: usize = 1;
    while i < hand.len()
        invariant
            1 <= i,
            hand@.len() == old(hand)@.len(),
            card_views(hand@).to_multiset() == card_views(old(hand)@).to_multiset(),
            forall|a: int, b: int|
                0 <= a < b < i && b < hand@.len() ==> card_views(hand@)[a].rank <= card_views(
                    hand@,
                )[b].rank,
        decreases hand@.len() - i,
    {
        let mut j: usize = i;
        while j > 0 && hand[j - 1].rank > hand[i].rank
            invariant
                0 <= j <= i < hand@.len(),
                forall|k: int|
                    j <= k < i ==> card_views(hand@)[k].rank > card_views(hand@)[i as int].rank,
            decreases j,
        {
            j = j - 1;
        }
        let ghost s: Seq<Card> = hand@;
        let ghost v: Seq<CardV> = card_views(hand@);
        let c = hand.remove(i);
        hand.insert(j, c);
        proof {
            lemma_card_views_remove(s, i as int);
            lemma_card_views_insert(s.remove(i as int), j as int, c);
            let nv = card_views(hand@);
            assert(c@ == v[i as int]);
            assert(nv == v.remove(i as int).insert(j as int, v[i as int]));
            assert forall|k: int|
                0 <= k < nv.len() implies nv[k] == (if k < j {
                v[k]
            } else if k == j {
                v[i as int]
            } else if k <= i {
                v[k - 1]
            } else {
                v[k]
            }) by {
                v.remove_ensures(i as int);
                v.remove(i as int).insert_ensures(j as int, v[i as int]);
            }
            assert(nv.to_multiset() =~= v.to_multiset()) by {
                assert(v.contains(v[i as int]));
                assert(nv.to_multiset() == v.to_multiset().remove(v[i as int]).insert(
                    v[i as int],
                ));
            }
            assert forall|a: int, b: int|
                0 <= a < b < i + 1 && b < nv.len() implies nv[a].rank <= nv[b].rank by {
                assert(nv[a] == (if a < j {
                    v[a]
                } else if a == j {
                    v[i as int]
                } else if a <= i {
                    v[a - 1]
                } else {
                    v[a]
                }));
                assert(nv[b] == (if b < j {
                    v[b]
                } else if b == j {
                    v[i as int]
                } else if b <= i {
                    v[b - 1]
                } else {
                    v[b]
                }));
                if j > 0 {
                    assert(v[j - 1].rank <= v[i as int].rank);
                }
            }
        }
        i = i + 1;
    }
    proof {
        let nv = card_views(hand@);
        if wf_cards(card_views(old(hand)@)) {
            assert forall|k: int| 0 <= k < nv.len() implies wf_card(nv[k]) by {
                assert(nv.contains(nv[k]));
                assert(card_views(old(hand)@).to_multiset().count(nv[k]) > 0);
                assert(card_views(old(hand)@).contains(nv[k]));
                let j: int = choose|j: int|
                    0 <= j < card_views(old(hand)@).len() && card_views(old(hand)@)[j] == nv[k];
                assert(wf_card(card_views(old(hand)@)[j]));
            }
        }
    }
}

/// One settled round: the winnings of the evaluated hand at the given
/// bet — positive for a recognized category, the lost bet otherwise —
/// added to the bankroll.
pub fn play_round(hand: &Vec<Card>, bet: i32, bank: i32) -> (new_bank: i32)
    requires
        wf_hand(card_views(hand@)),
        0 <= bet,
        bet * 25 <= i32::MAX,
        bank + bet * 25 <= i32::MAX,
        i32::MIN <= bank - bet,
    ensures
        new_bank == bank + spec_multiplier(spec_category(card_views(hand@))) * bet,
{
    let win = check_hand(hand, bet);
    bank + win
}

} // verus!
