use vstd::prelude::*;

verus! {

/// One playing card: a rank 1..=13 (ace through king), a suit 1..=4
/// (hearts, diamonds, clubs, spades), and the display symbols derived
/// from rank and suit by a fixed lookup.
pub struct Card {
    pub rank: u8,
    pub suit: u8,
    pub symbol: String,
    pub suit_symbol: String,
}

/// The mathematical image of a card: its fields as plain values.
pub ghost struct CardV {
    pub rank: int,
    pub suit: int,
    pub symbol: Seq<char>,
    pub suit_symbol: Seq<char>,
}

impl View for Card {
    type V = CardV;

    open spec fn view(&self) -> CardV {
        CardV {
            rank: self.rank as int,
            suit: self.suit as int,
            symbol: self.symbol@,
            suit_symbol: self.suit_symbol@,
        }
    }
}

/// The display symbol of a rank: "A" for the ace, "J", "Q", "K" for the
/// court cards, the decimal digits for the numeric ranks.
pub open spec fn spec_rank_symbol(rank: int) -> Seq<char> {
    if rank == 1 {
        "A"@
    } else if rank == 2 {
        "2"@
    } else if rank == 3 {
        "3"@
    } else if rank == 4 {
        "4"@
    } else if rank == 5 {
        "5"@
    } else if rank == 6 {
        "6"@
    } else if rank == 7 {
        "7"@
    } else if rank == 8 {
        "8"@
    } else if rank == 9 {
        "9"@
    } else if rank == 10 {
        "10"@
    } else if rank == 11 {
        "J"@
    } else if rank == 12 {
        "Q"@
    } else if rank == 13 {
        "K"@
    } else {
        Seq::empty()
    }
}

/// The display glyph of a suit: hearts, diamonds, clubs, spades.
pub open spec fn spec_suit_symbol(suit: int) -> Seq<char> {
    if suit == 1 {
        "♡"@
    } else if suit == 2 {
        "♢"@
    } else if suit == 3 {
        "♣"@
    } else if suit == 4 {
        "♠"@
    } else {
        Seq::empty()
    }
}

/// A well-formed card: rank and suit in range, symbols those of the
/// fixed lookup.
pub open spec fn wf_card(c: CardV) -> bool {
    &&& 1 <= c.rank <= 13
    &&& 1 <= c.suit <= 4
    &&& c.symbol == spec_rank_symbol(c.rank)
    &&& c.suit_symbol == spec_suit_symbol(c.suit)
}

impl Card {
    /// Builds the card of the given rank and suit, deriving its display
    /// symbols from the fixed lookup.
    pub fn init(rank: u8, suit: u8) -> (c: Card)
        requires
            1 <= rank <= 13,
            1 <= suit <= 4,
        ensures
            c@.rank == rank as int,
            c@.suit == suit as int,
            wf_card(c@),
    {
        let symbol: String = match rank {
            1 => "A".to_owned(),
            2 => "2".to_owned(),
            3 => "3".to_owned(),
            4 => "4".to_owned(),
            5 => "5".to_owned(),
            6 => "6".to_owned(),
            7 => "7".to_owned(),
            8 => "8".to_owned(),
            9 => "9".to_owned(),
            11 => "J".to_owned(),
            12 => "Q".to_owned(),
            13 => "K".to_owned(),
            _ => "10".to_owned(),
        };
        let suit_symbol: String = match suit {
            1 => "♡".to_owned(),
            2 => "♢".to_owned(),
            3 => "♣".to_owned(),
            _ => "♠".to_owned(),
        };
        Card { suit, rank, symbol, suit_symbol }
    }

    /// Builds the card where rank and suit lie in range, and rejects any
    /// other pair as an explicit error instead of a fatal one.
    pub fn try_init(rank: u8, suit: u8) -> (r: Option<Card>)
        ensures
            (r is Some) == (1 <= rank <= 13 && 1 <= suit <= 4),
            r matches Some(c) ==> (c@.rank == rank as int && c@.suit == suit as int && wf_card(
                c@,
            )),
    {
        if 1 <= rank && rank <= 13 && 1 <= suit && suit <= 4 {
            Some(Card::init(rank, suit))
        } else {
            None
        }
    }
}

/// The views of a sequence of cards, element by element.
pub open spec fn card_views(s: Seq<Card>) -> Seq<CardV> {
    s.map_values(|c: Card| c@)
}

/// Every card of the sequence is well formed.
pub open spec fn wf_cards(s: Seq<CardV>) -> bool {
    forall|i: int| 0 <= i < s.len() ==> wf_card(#[trigger] s[i])
}

} // verus!
