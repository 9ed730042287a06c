//! Suits, ranks and cards.

use vstd::prelude::*;

verus! {

/// The four suits.
#[derive(Clone, Copy, PartialEq, Eq, Debug, Structural)]
pub enum Suit {
    Heart,
    Diamond,
    Spade,
    Club,
}

/// A card's rank. A playing card carries `Number(n)` only for `2 <= n <= 10`.
#[derive(Clone, Copy, PartialEq, Eq, Debug, Structural)]
pub enum Rank {
    Number(u8),
    Jack,
    Queen,
    King,
    Ace,
}

/// Whether a card lies face down or face up.
#[derive(Clone, Copy, PartialEq, Eq, Debug, Structural)]
pub enum Visibility {
    Hidden,
    Visible,
}

impl Visibility {
    /// The side that a card drawn face up or face down shows.
    pub open spec fn drawn(visible: bool) -> Visibility {
        if visible {
            Visibility::Visible
        } else {
            Visibility::Hidden
        }
    }
}

impl Default for Visibility {
    fn default() -> (state: Visibility)
        ensures
            state == Visibility::Hidden,
    {
        Visibility::Hidden
    }
}

/// A playing card together with the side it shows.
#[derive(Clone, Copy, PartialEq, Eq, Debug, Structural)]
pub struct Card {
    pub suit: Suit,
    pub rank: Rank,
    pub state: Visibility,
}

impl Suit {
    /// The suit at position `i` of the fixed order Heart, Diamond, Spade, Club.
    pub open spec fn at(i: int) -> Suit {
        if i == 0 {
            Suit::Heart
        } else if i == 1 {
            Suit::Diamond
        } else if i == 2 {
            Suit::Spade
        } else {
            Suit::Club
        }
    }

    /// The four suits in their fixed order.
    pub fn values() -> (all: [Suit; 4])
        ensures
            forall|i: int| 0 <= i < 4 ==> all@[i] == Suit::at(i),
    {
        [Suit::Heart, Suit::Diamond, Suit::Spade, Suit::Club]
    }
}

impl Rank {
    /// The face at position `i` of the fixed order Jack, Queen, King, Ace.
    pub open spec fn face_at(i: int) -> Rank {
        if i == 0 {
            Rank::Jack
        } else if i == 1 {
            Rank::Queen
        } else if i == 2 {
            Rank::King
        } else {
            Rank::Ace
        }
    }

    /// The four faces in their fixed order.
    pub fn faces() -> (all: [Rank; 4])
        ensures
            forall|i: int| 0 <= i < 4 ==> all@[i] == Rank::face_at(i),
    {
        [Rank::Jack, Rank::Queen, Rank::King, Rank::Ace]
    }

    /// The ranks that occur in a deck: the numbers 2 to 10 and the four faces.
    pub open spec fn is_playable(self) -> bool {
        match self {
            Rank::Number(n) => 2 <= n <= 10,
            _ => true,
        }
    }

    /// What the rank counts for with every Ace taken as 1.
    pub open spec fn points(self) -> nat {
        match self {
            Rank::Number(n) => n as nat,
            Rank::Jack => 10,
            Rank::Queen => 10,
            Rank::King => 10,
            Rank::Ace => 1,
        }
    }
}

impl Card {
    /// A card whose rank occurs in a deck.
    pub open spec fn is_playable(self) -> bool {
        self.rank.is_playable()
    }

    /// The card of the given suit and rank, lying face down.
    pub open spec fn face_down(suit: Suit, rank: Rank) -> Card {
        Card { suit, rank, state: Visibility::Hidden }
    }

    /// The same card with the given side up.
    pub open spec fn with_state(self, state: Visibility) -> Card {
        Card { suit: self.suit, rank: self.rank, state }
    }

    /// The card as it leaves the deck: face up when `visible`, else face
    /// down, whichever side it showed in the deck.
    pub open spec fn dealt(self, visible: bool) -> Card {
        self.with_state(Visibility::drawn(visible))
    }
}

/// Every card of `cards` has a rank that occurs in a deck.
pub open spec fn all_playable(cards: Seq<Card>) -> bool {
    forall|i: int| 0 <= i < cards.len() ==> (#[trigger] cards[i]).is_playable()
}

} // verus!
