use blackjack::card::{Card, Rank, Suit, Visibility};
use blackjack::scoring::get_hand_value;

fn up(rank: Rank) -> Card {
    Card { suit: Suit::Spade, rank, state: Visibility::Visible }
}

fn hand(ranks: &[Rank]) -> Vec<Card> {
    ranks.iter().map(|rank| up(*rank)).collect()
}

fn greedy(ranks: &[Rank]) -> u128 {
    let mut value: u128 = 0;
    let mut aces: u128 = 0;
    for rank in ranks {
        match rank {
            Rank::Number(n) => value += u128::from(*n),
            Rank::Ace => aces += 1,
            _ => value += 10,
        }
    }
    value += aces;
    for _ in 0..aces {
        if value + 10 <= 21 {
            value += 10;
        }
    }
    value
}

fn all_ranks() -> Vec<Rank> {
    let mut ranks: Vec<Rank> = (2..=10).map(Rank::Number).collect();
    ranks.extend([Rank::Jack, Rank::Queen, Rank::King, Rank::Ace]);
    ranks
}

#[test]
fn empty_hand_is_worth_nothing() {
    assert_eq!(get_hand_value(&Vec::new()), 0);
}

#[test]
fn single_ace_scores_eleven() {
    assert_eq!(get_hand_value(&hand(&[Rank::Ace])), 11);
}

#[test]
fn two_aces_score_twelve() {
    assert_eq!(get_hand_value(&hand(&[Rank::Ace, Rank::Ace])), 12);
}

#[test]
fn three_aces_score_thirteen() {
    assert_eq!(get_hand_value(&hand(&[Rank::Ace, Rank::Ace, Rank::Ace])), 13);
}

#[test]
fn king_and_ace_is_blackjack() {
    assert_eq!(get_hand_value(&hand(&[Rank::King, Rank::Ace])), 21);
}

#[test]
fn ace_and_king_is_blackjack_in_either_order() {
    assert_eq!(get_hand_value(&hand(&[Rank::Ace, Rank::King])), 21);
}

#[test]
fn ten_nine_five_is_a_bust_of_24() {
    let cards = hand(&[Rank::Number(10), Rank::Number(9), Rank::Number(5)]);
    assert_eq!(get_hand_value(&cards), 24);
}

#[test]
fn faces_count_ten() {
    assert_eq!(get_hand_value(&hand(&[Rank::Jack])), 10);
    assert_eq!(get_hand_value(&hand(&[Rank::Queen])), 10);
    assert_eq!(get_hand_value(&hand(&[Rank::King])), 10);
    assert_eq!(get_hand_value(&hand(&[Rank::Jack, Rank::Queen, Rank::King])), 30);
}

#[test]
fn numbers_count_their_face_value() {
    for n in 2..=10u8 {
        assert_eq!(get_hand_value(&hand(&[Rank::Number(n)])), u128::from(n));
    }
}

#[test]
fn ace_stays_low_where_eleven_would_bust() {
    assert_eq!(get_hand_value(&hand(&[Rank::Ace, Rank::Number(10), Rank::Number(9)])), 20);
    assert_eq!(get_hand_value(&hand(&[Rank::Number(10), Rank::Number(9), Rank::Ace])), 20);
    assert_eq!(get_hand_value(&hand(&[Rank::King, Rank::Queen, Rank::Ace])), 21);
    assert_eq!(get_hand_value(&hand(&[Rank::King, Rank::Queen, Rank::Ace, Rank::Ace])), 22);
}

#[test]
fn ace_goes_high_up_to_exactly_21() {
    assert_eq!(get_hand_value(&hand(&[Rank::Ace, Rank::Number(5), Rank::Number(5)])), 21);
    assert_eq!(get_hand_value(&hand(&[Rank::Ace, Rank::Ace, Rank::Number(9)])), 21);
    assert_eq!(get_hand_value(&hand(&[Rank::Ace, Rank::Number(5), Rank::Number(6)])), 12);
}

#[test]
fn face_down_cards_count_like_any_other() {
    let hidden = Card { suit: Suit::Heart, rank: Rank::King, state: Visibility::Hidden };
    assert_eq!(get_hand_value(&vec![hidden, up(Rank::Ace)]), 21);
}

#[test]
fn suit_does_not_matter() {
    for suit in [Suit::Heart, Suit::Diamond, Suit::Spade, Suit::Club] {
        let card = Card { suit, rank: Rank::Number(7), state: Visibility::Visible };
        assert_eq!(get_hand_value(&vec![card]), 7);
    }
}

#[test]
fn value_is_hard_total_or_ten_more() {
    let ranks = all_ranks();
    for a in &ranks {
        for b in &ranks {
            for c in &ranks {
                let picked = [*a, *b, *c];
                let hard: u128 = picked
                    .iter()
                    .map(|rank| match rank {
                        Rank::Number(n) => u128::from(*n),
                        Rank::Ace => 1,
                        _ => 10,
                    })
                    .sum();
                let value = get_hand_value(&hand(&picked));
                assert!(value == hard || value == hard + 10);
                if value != hard {
                    assert!(value <= 21);
                    assert!(picked.contains(&Rank::Ace));
                }
            }
        }
    }
}

#[test]
fn value_agrees_with_greedy_promotion() {
    let ranks = all_ranks();
    for a in &ranks {
        assert_eq!(get_hand_value(&hand(&[*a])), greedy(&[*a]));
        for b in &ranks {
            assert_eq!(get_hand_value(&hand(&[*a, *b])), greedy(&[*a, *b]));
            for c in &ranks {
                for d in &ranks {
                    let picked = [*a, *b, *c, *d];
                    assert_eq!(get_hand_value(&hand(&picked)), greedy(&picked));
                }
            }
        }
    }
}

#[test]
fn a_long_hand_is_totalled_without_limit() {
    assert_eq!(get_hand_value(&hand(&[Rank::Number(10); 26])), 260);
    let mut cards = hand(&[Rank::King; 25]);
    cards.push(up(Rank::Number(5)));
    assert_eq!(get_hand_value(&cards), 255);
    cards.push(up(Rank::Ace));
    assert_eq!(get_hand_value(&cards), 256);
    assert_eq!(get_hand_value(&hand(&[Rank::King; 1000])), 10_000);
    assert_eq!(get_hand_value(&hand(&[Rank::Ace; 300])), 300);
    assert_eq!(get_hand_value(&hand(&[Rank::Number(255); 3])), 765);
}

#[test]
fn scoring_leaves_the_hand_as_it_is() {
    let cards = hand(&[Rank::Ace, Rank::King, Rank::Number(4)]);
    let before = cards.clone();
    assert_eq!(get_hand_value(&cards), 15);
    assert_eq!(cards, before);
}
