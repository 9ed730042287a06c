//! The text that shows cards and hands on a terminal. Nothing here prints:
//! every function returns the text.

use vstd::prelude::*;
use crate::card::{Card, Rank, Suit, Visibility};
use crate::scoring::{get_hand_value, hand_value};

verus! {

/// The decimal digit `d`, as text.
pub open spec fn digit(d: nat) -> Seq<char> {
    if d == 0 {
        "0"@
    } else if d == 1 {
        "1"@
    } else if d == 2 {
        "2"@
    } else if d == 3 {
        "3"@
    } else if d == 4 {
        "4"@
    } else if d == 5 {
        "5"@
    } else if d == 6 {
        "6"@
    } else if d == 7 {
        "7"@
    } else if d == 8 {
        "8"@
    } else {
        "9"@
    }
}

/// The number `n` in decimal digits, without leading zeros.
pub open spec fn decimal(n: nat) -> Seq<char>
    decreases n,
{
    if n < 10 {
        digit(n)
    } else {
        decimal(n / 10) + digit(n % 10)
    }
}

/// How a suit is written: its symbol.
pub open spec fn suit_text(suit: Suit) -> Seq<char> {
    match suit {
        Suit::Heart => "\u{2665}"@,
        Suit::Diamond => "\u{2666}"@,
        Suit::Spade => "\u{2660}"@,
        Suit::Club => "\u{2663}"@,
    }
}

/// How a rank is written, in two columns: a number below 10 and a face are
/// followed by a blank, 10 fills both columns, and a number above 10 is not
/// written at all.
pub open spec fn rank_text(rank: Rank) -> Seq<char> {
    match rank {
        Rank::Number(n) => if n < 10 {
            digit(n as nat) + " "@
        } else if n == 10 {
            "10"@
        } else {
            ""@
        },
        Rank::Jack => "J "@,
        Rank::Queen => "Q "@,
        Rank::King => "K "@,
        Rank::Ace => "A "@,
    }
}

/// The picture of a card, four lines high: its back where it lies face down,
/// else its rank, its suit, and its rank again.
pub open spec fn card_text(card: Card) -> Seq<char> {
    match card.state {
        Visibility::Hidden => " ___  \n|## | \n|###| \n|_##| \n"@,
        Visibility::Visible => " ___  \n|"@ + rank_text(card.rank) + " | \n| "@ + suit_text(
            card.suit,
        ) + " | \n|"@ + rank_text(card.rank) + " | \n"@,
    }
}

/// The pictures of the cards, one below the other.
pub open spec fn cards_text(cards: Seq<Card>) -> Seq<char>
    decreases cards.len(),
{
    if cards.len() == 0 {
        Seq::empty()
    } else {
        cards_text(cards.drop_last()) + card_text(cards.last())
    }
}

/// Both hands with their values, the dealer's first. The dealer's value is
/// masked as `???` unless `show_dealer_hand`.
pub open spec fn hands_text(player: Seq<Card>, dealer: Seq<Card>, show_dealer_hand: bool) -> Seq<
    char,
> {
    "DEALER: "@ + (if show_dealer_hand {
        decimal(hand_value(dealer))
    } else {
        "???"@
    }) + "\n"@ + cards_text(dealer) + "PLAYER: "@ + decimal(hand_value(player)) + "\n"@
        + cards_text(player)
}

/// The text of one decimal digit.
fn digit_str(d: u8) -> (text: &'static str)
    requires
        d < 10,
    ensures
        text@ == digit(d as nat),
{
    if d == 0 {
        "0"
    } else if d == 1 {
        "1"
    } else if d == 2 {
        "2"
    } else if d == 3 {
        "3"
    } else if d == 4 {
        "4"
    } else if d == 5 {
        "5"
    } else if d == 6 {
        "6"
    } else if d == 7 {
        "7"
    } else if d == 8 {
        "8"
    } else {
        "9"
    }
}

/// Writes a number in decimal digits.
pub fn decimal_string(n: u128) -> (text: String)
    ensures
        text@ == decimal(n as nat),
    decreases n,
{
    if n < 10 {
        String::from_str(digit_str(n as u8))
    } else {
        let mut text = decimal_string(n / 10);
        text.append(digit_str((n % 10) as u8));
        text
    }
}

impl Suit {
    /// The suit's symbol.
    pub fn symbol(&self) -> (text: String)
        ensures
            text@ == suit_text(*self),
    {
        match self {
            Suit::Heart => String::from_str("\u{2665}"),
            Suit::Diamond => String::from_str("\u{2666}"),
            Suit::Spade => String::from_str("\u{2660}"),
            Suit::Club => String::from_str("\u{2663}"),
        }
    }
}

impl Rank {
    /// The rank as it is written on a card, two columns wide.
    pub fn label(&self) -> (text: String)
        ensures
            text@ == rank_text(*self),
    {
        match self {
            Rank::Number(n) => {
                if *n < 10 {
                    let mut text = String::from_str(digit_str(*n));
                    text.append(" ");
                    text
                } else if *n == 10 {
                    String::from_str("10")
                } else {
                    String::from_str("")
                }
            },
            Rank::Jack => String::from_str("J "),
            Rank::Queen => String::from_str("Q "),
            Rank::King => String::from_str("K "),
            Rank::Ace => String::from_str("A "),
        }
    }
}

/// Draws one card.
pub fn display_card(card: &Card) -> (text: String)
    ensures
        text@ == card_text(*card),
{
    match card.state {
        Visibility::Hidden => String::from_str(" ___  \n|## | \n|###| \n|_##| \n"),
        Visibility::Visible => {
            let rank = card.rank.label();
            let suit = card.suit.symbol();
            let mut text = String::from_str(" ___  \n|");
            text.append(rank.as_str());
            text.append(" | \n| ");
            text.append(suit.as_str());
            text.append(" | \n|");
            text.append(rank.as_str());
            text.append(" | \n");
            text
        },
    }
}

/// Draws the cards of a hand, one below the other.
pub fn display_cards(cards: &Vec<Card>) -> (text: String)
    ensures
        text@ == cards_text(cards@),
{
    let mut text = String::new();
    let mut i: usize = 0;
    while i < cards.len()
        invariant
            i <= cards.len(),
            text@ == cards_text(cards@.take(i as int)),
        decreases cards.len() - i,
    {
        assert(cards@.take(i + 1).drop_last() =~= cards@.take(i as int));
        let picture = display_card(&cards[i]);
        text.append(picture.as_str());
        i += 1;
    }
    assert(cards@.take(i as int) =~= cards@);
    text
}

/// Draws both hands with their values, the dealer's first, the dealer's value
/// masked unless `show_dealer_hand`.
pub fn display_hands(player_hand: &Vec<Card>, dealer_hand: &Vec<Card>, show_dealer_hand: bool) -> (text:
    String)
    ensures
        text@ == hands_text(player_hand@, dealer_hand@, show_dealer_hand),
{
    let mut text = String::from_str("DEALER: ");
    if show_dealer_hand {
        let value = decimal_string(get_hand_value(dealer_hand));
        text.append(value.as_str());
    } else {
        text.append("???");
    }
    text.append("\n");
    let dealer_cards = display_cards(dealer_hand);
    text.append(dealer_cards.as_str());
    text.append("PLAYER: ");
    let value = decimal_string(get_hand_value(player_hand));
    text.append(value.as_str());
    text.append("\n");
    let player_cards = display_cards(player_hand);
    text.append(player_cards.as_str());
    text
}

} // verus!
