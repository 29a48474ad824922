use vstd::prelude::*;
use rand::seq::SliceRandom;
use crate::card::{Card, CardV, card_views, spec_rank_symbol, spec_suit_symbol, wf_card, wf_cards};

verus! {

broadcast use vstd::seq_lib::group_to_multiset_ensures;

/// The unshuffled reference deck: for each suit 1 through 4, the ranks
/// 1 through 13 in order, 52 cards in all.
pub open spec fn full_deck() -> Seq<CardV> {
    Seq::new(
        52,
        |i: int|
            CardV {
                rank: i % 13 + 1,
                suit: i / 13 + 1,
                symbol: spec_rank_symbol(i % 13 + 1),
                suit_symbol: spec_suit_symbol(i / 13 + 1),
            },
    )
}

/// A shuffled deck of cards, consumed by dealing from its end.
pub struct Deck {
    cards: Vec<Card>,
}

impl View for Deck {
    type V = Seq<CardV>;

    closed spec fn view(&self) -> Seq<CardV> {
        card_views(self.cards@)
    }
}

/// Relies on rand's SliceRandom::shuffle: it permutes the slice in
/// place and neither adds, drops nor alters any element.
#[verifier::external_body]
fn shuffle_cards(v: &mut Vec<Card>)
    ensures
        final(v)@.len() == old(v)@.len(),
        card_views(final(v)@).to_multiset() == card_views(old(v)@).to_multiset(),
{
    let mut rng = rand::rng();
    v.as_mut_slice().shuffle(&mut rng);
}

proof fn lemma_full_deck_no_duplicates()
    ensures
        full_deck().no_duplicates(),
{
    assert forall|i: int, j: int| 0 <= i < 52 && 0 <= j < 52 && i != j implies full_deck()[i]
        != full_deck()[j] by {
        vstd::arithmetic::div_mod::lemma_fundamental_div_mod(i, 13);
        vstd::arithmetic::div_mod::lemma_fundamental_div_mod(j, 13);
    }
}

impl Deck {
    /// Builds one card for each (rank, suit) pair, ranks in the inner
    /// loop, then shuffles them: the result holds the 52 distinct cards
    /// of the reference deck in some order.
    pub fn init() -> (d: Deck)
        ensures
            d@.len() == 52,
            d@.to_multiset() == full_deck().to_multiset(),
            d@.no_duplicates(),
            wf_cards(d@),
    {
        let mut vc: Vec<Card> = Vec::new();
        let mut rank: u8 = 1;
        let mut suit: u8 = 1;
        while suit < 5
            invariant
                1 <= suit <= 5,
                rank == 1,
                vc@.len() == (suit - 1) * 13,
                forall|k: int| 0 <= k < vc@.len() ==> card_views(vc@)[k] == full_deck()[k],
            decreases 5 - suit,
        {
            while rank < 14
                invariant
                    1 <= rank <= 14,
                    1 <= suit <= 4,
                    vc@.len() == (suit - 1) * 13 + (rank - 1),
                    forall|k: int| 0 <= k < vc@.len() ==> card_views(vc@)[k] == full_deck()[k],
                decreases 14 - rank,
            {
                let c = Card::init(rank, suit);
                vc.push(c);
                proof {
                    let n: int = vc@.len() - 1;
                    vstd::arithmetic::div_mod::lemma_fundamental_div_mod_converse(
                        n,
                        13,
                        suit as int - 1,
                        rank as int - 1,
                    );
                    assert(card_views(vc@)[n] == full_deck()[n]);
                }
                rank = rank + 1;
            }
            rank = 1;
            suit = suit + 1;
        }
        proof {
            assert(card_views(vc@) =~= full_deck());
            lemma_full_deck_no_duplicates();
        }
        shuffle_cards(&mut vc);
        proof {
            let s = card_views(vc@);
            full_deck().lemma_multiset_has_no_duplicates();
            s.lemma_multiset_has_no_duplicates_conv();
            assert forall|i: int| 0 <= i < s.len() implies wf_card(s[i]) by {
                assert(s.contains(s[i]));
                assert(full_deck().to_multiset().count(s[i]) > 0);
                assert(full_deck().contains(s[i]));
                let j: int = choose|j: int|
                    0 <= j < full_deck().len() && full_deck()[j] == s[i];
                assert(wf_card(full_deck()[j]));
            }
        }
        Deck { cards: vc }
    }

    /// How many cards are left in the deck.
    pub fn len(&self) -> (n: usize)
        ensures
            n == self@.len(),
    {
        self.cards.len()
    }
}

/// Removes the last `nbr` cards of the deck and returns them in pop
/// order: the card that was last in the deck comes first in the hand.
pub fn deal_cards(deck: &mut Deck, nbr: usize) -> (hand: Vec<Card>)
    requires
        nbr <= old(deck)@.len(),
    ensures
        final(deck)@ == old(deck)@.take(old(deck)@.len() - nbr),
        hand@.len() == nbr,
        forall|k: int|
            0 <= k < nbr ==> card_views(hand@)[k] == old(deck)@[old(deck)@.len() - 1 - k],
{
    let mut hand: Vec<Card> = Vec::new();
    let mut i: usize = 0;
    while i < nbr
        invariant
            0 <= i <= nbr,
            nbr <= old(deck)@.len(),
            deck.cards@ == old(deck).cards@.take(old(deck).cards@.len() - i),
            hand@.len() == i,
            forall|k: int|
                0 <= k < i ==> hand@[k] == old(deck).cards@[old(deck).cards@.len() - 1 - k],
        decreases nbr - i,
    {
        let c = deck.cards.pop();
        match c {
            Some(c) => hand.push(c),
            None => {
                proof {
                    assert(false);
                }
            },
        }
        proof {
            assert(deck.cards@ =~= old(deck).cards@.take(old(deck).cards@.len() - (i + 1)));
        }
        i = i + 1;
    }
    proof {
        assert(deck@ =~= old(deck)@.take(old(deck)@.len() - nbr));
        assert forall|k: int| 0 <= k < nbr implies card_views(hand@)[k] == old(deck)@[old(
            deck,
        )@.len() - 1 - k] by {
            assert(card_views(hand@)[k] == hand@[k]@);
            assert(old(deck)@[old(deck)@.len() - 1 - k] == old(deck).cards@[old(
                deck,
            ).cards@.len() - 1 - k]@);
        }
    }
    hand
}

/// Deals where the deck holds enough cards, and rejects a request past
/// its end as an explicit error instead of a fatal one, leaving the
/// deck unchanged then.
pub fn try_deal(deck: &mut Deck, nbr: usize) -> (r: Option<Vec<Card>>)
    ensures
        (r is Some) == (nbr <= old(deck)@.len()),
        r is None ==> final(deck)@ == old(deck)@,
        r matches Some(hand) ==> (final(deck)@ == old(deck)@.take(old(deck)@.len() - nbr)
            && hand@.len() == nbr && forall|k: int|
            0 <= k < nbr ==> card_views(hand@)[k] == old(deck)@[old(deck)@.len() - 1 - k]),
{
    if nbr <= deck.len() {
        Some(deal_cards(deck, nbr))
    } else {
        None
    }
}

} // verus!
