use poker::card::Card;
use poker::deck::{deal_cards, try_deal, Deck};
use poker::eval::{
    check_hand, hand_category, is_flush, is_four_of_kind, is_straight, is_three_of_kind,
    is_two_pairs, HandCategory,
};
use poker::game::{parse_selection, play_round, rebuild_hand, sort_hand};

fn hand_of(ranks: [u8; 5], suits: [u8; 5]) -> Vec<Card> {
    let mut hand = Vec::new();
    let mut i = 0;
    while i < 5 {
        hand.push(Card::init(ranks[i], suits[i]));
        i += 1;
    }
    hand
}

#[test]
fn test_deal_cards() {
    let mut deck = Deck::init();
    let hand = deal_cards(&mut deck, 5);
    assert_eq!(5, hand.len());
}

#[test]
fn test_check_hand() {
    let cards = vec![
        Card::init(1, 1),
        Card::init(1, 2),
        Card::init(1, 3),
        Card::init(1, 4),
        Card::init(2, 1),
    ];
    assert_eq!(is_four_of_kind(&cards), true);
    let cards = vec![
        Card::init(1, 1),
        Card::init(2, 2),
        Card::init(2, 3),
        Card::init(2, 4),
        Card::init(2, 1),
    ];
    assert_eq!(is_four_of_kind(&cards), true);
    let cards = vec![
        Card::init(3, 1),
        Card::init(4, 2),
        Card::init(5, 3),
        Card::init(6, 4),
        Card::init(7, 1),
    ];
    assert_eq!(is_straight(&cards), true);
    let cards = vec![
        Card::init(1, 1),
        Card::init(10, 2),
        Card::init(11, 3),
        Card::init(12, 4),
        Card::init(13, 1),
    ];
    assert_eq!(is_straight(&cards), true);
}

#[test]
fn card_symbols_match_fixed_lookup() {
    let c = Card::init(1, 1);
    assert_eq!(c.symbol, "A");
    assert_eq!(c.suit_symbol, "♡");
    let c = Card::init(7, 2);
    assert_eq!(c.symbol, "7");
    assert_eq!(c.suit_symbol, "♢");
    let c = Card::init(10, 3);
    assert_eq!(c.symbol, "10");
    assert_eq!(c.suit_symbol, "♣");
    let c = Card::init(11, 4);
    assert_eq!(c.symbol, "J");
    assert_eq!(c.suit_symbol, "♠");
    let c = Card::init(12, 1);
    assert_eq!(c.symbol, "Q");
    let c = Card::init(13, 4);
    assert_eq!(c.symbol, "K");
    let c = Card::init(2, 2);
    assert_eq!(c.symbol, "2");
}

#[test]
fn deck_holds_each_pair_exactly_once() {
    let mut deck = Deck::init();
    assert_eq!(deck.len(), 52);
    let cards = deal_cards(&mut deck, 52);
    assert_eq!(deck.len(), 0);
    for suit in 1..=4u8 {
        for rank in 1..=13u8 {
            let n = cards
                .iter()
                .filter(|c| c.rank == rank && c.suit == suit)
                .count();
            assert_eq!(n, 1);
        }
    }
}

#[test]
fn dealing_five_leaves_forty_seven() {
    let mut deck = Deck::init();
    let hand = deal_cards(&mut deck, 5);
    assert_eq!(hand.len(), 5);
    assert_eq!(deck.len(), 47);
}

#[test]
fn ace_low_run_is_not_a_straight() {
    let cards = hand_of([1, 2, 3, 4, 5], [1, 2, 3, 4, 1]);
    assert_eq!(is_straight(&cards), false);
}

#[test]
fn full_house_scores_as_two_pairs_first() {
    let cards = hand_of([2, 2, 2, 3, 3], [1, 2, 3, 4, 1]);
    assert!(is_two_pairs(&cards));
    assert!(is_three_of_kind(&cards));
    assert_eq!(hand_category(&cards), HandCategory::TwoPairs);
    assert_eq!(check_hand(&cards, 1), 2);
}

#[test]
fn four_of_a_kind_scores_as_three_of_kind_first() {
    let cards = hand_of([1, 1, 1, 1, 2], [1, 2, 3, 4, 1]);
    assert!(is_four_of_kind(&cards));
    assert!(!is_two_pairs(&cards));
    assert!(is_three_of_kind(&cards));
    assert_eq!(hand_category(&cards), HandCategory::ThreeOfKind);
    assert_eq!(check_hand(&cards, 1), 3);
}

#[test]
fn flush_pays_five_times_the_bet() {
    let cards = hand_of([2, 5, 7, 9, 12], [1, 1, 1, 1, 1]);
    assert!(is_flush(&cards));
    assert_eq!(hand_category(&cards), HandCategory::Flush);
    assert_eq!(check_hand(&cards, 3), 15);
}

#[test]
fn straight_flush_reports_the_straight_first() {
    let cards = hand_of([3, 4, 5, 6, 7], [2, 2, 2, 2, 2]);
    assert!(is_straight(&cards));
    assert!(is_flush(&cards));
    assert_eq!(hand_category(&cards), HandCategory::Straight);
    assert_eq!(check_hand(&cards, 1), 4);
}

#[test]
fn no_win_loses_the_bet() {
    let cards = hand_of([2, 4, 6, 8, 10], [1, 2, 3, 4, 1]);
    assert_eq!(hand_category(&cards), HandCategory::NoWin);
    assert_eq!(check_hand(&cards, 2), -2);
}

#[test]
fn bankroll_after_a_straight_and_after_no_win() {
    let straight = hand_of([3, 4, 5, 6, 7], [1, 2, 3, 4, 1]);
    assert_eq!(play_round(&straight, 1, 20), 24);
    let no_win = hand_of([2, 4, 6, 8, 10], [1, 2, 3, 4, 1]);
    assert_eq!(play_round(&no_win, 1, 20), 19);
}

#[test]
fn selection_parses_digits_to_positions() {
    let keeps = parse_selection("125").unwrap();
    assert_eq!(keeps, vec![0, 1, 4]);
    let keeps = parse_selection("").unwrap();
    assert_eq!(keeps.len(), 0);
    let keeps = parse_selection("54321").unwrap();
    assert_eq!(keeps, vec![4, 3, 2, 1, 0]);
}

#[test]
fn selection_rejects_other_characters() {
    assert!(parse_selection("6").is_none());
    assert!(parse_selection("1a3").is_none());
    assert!(parse_selection("0").is_none());
    assert!(parse_selection(" 1").is_none());
}

#[test]
fn rebuild_keeps_chosen_cards_and_refills_to_five() {
    let mut deck = Deck::init();
    let hand = deal_cards(&mut deck, 5);
    let keeps = vec![0usize, 2, 4];
    let new_hand = rebuild_hand(&hand, &keeps, &mut deck);
    assert_eq!(new_hand.len(), 5);
    assert_eq!(new_hand[0].rank, hand[0].rank);
    assert_eq!(new_hand[0].suit, hand[0].suit);
    assert_eq!(new_hand[1].rank, hand[2].rank);
    assert_eq!(new_hand[1].suit, hand[2].suit);
    assert_eq!(new_hand[2].rank, hand[4].rank);
    assert_eq!(new_hand[2].suit, hand[4].suit);
    assert_eq!(deck.len(), 45);
}

#[test]
fn sorting_orders_ranks_ascending_and_keeps_the_cards() {
    let mut cards = hand_of([13, 2, 11, 2, 7], [1, 2, 3, 4, 2]);
    sort_hand(&mut cards);
    let ranks: Vec<u8> = cards.iter().map(|c| c.rank).collect();
    assert_eq!(ranks, vec![2, 2, 7, 11, 13]);
    let mut pairs: Vec<(u8, u8)> = cards.iter().map(|c| (c.rank, c.suit)).collect();
    pairs.sort();
    assert_eq!(pairs, vec![(2, 2), (2, 4), (7, 2), (11, 3), (13, 1)]);
}

#[test]
fn invalid_rank_or_suit_is_rejected() {
    assert!(Card::try_init(1, 5).is_none());
    assert!(Card::try_init(1, 0).is_none());
    assert!(Card::try_init(0, 1).is_none());
    assert!(Card::try_init(14, 1).is_none());
    let c = Card::try_init(13, 4).unwrap();
    assert_eq!(c.symbol, "K");
    assert_eq!(c.suit_symbol, "♠");
}

#[test]
fn dealing_past_the_deck_is_rejected() {
    let mut deck = Deck::init();
    assert!(try_deal(&mut deck, 53).is_none());
    assert_eq!(deck.len(), 52);
    let hand = try_deal(&mut deck, 52).unwrap();
    assert_eq!(hand.len(), 52);
    assert_eq!(deck.len(), 0);
}
