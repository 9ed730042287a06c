//! Hand scoring with the flexible Ace.

use vstd::prelude::*;
use crate::card::{Card, Rank};

verus! {

/// The sum of the cards' points with every Ace counted as 1.
pub open spec fn hard_total(hand: Seq<Card>) -> nat
    decreases hand.len(),
{
    if hand.len() == 0 {
        0
    } else {
        hard_total(hand.drop_last()) + hand.last().rank.points()
    }
}

/// The number of Aces in the hand.
pub open spec fn ace_count(hand: Seq<Card>) -> nat
    decreases hand.len(),
{
    if hand.len() == 0 {
        0
    } else {
        ace_count(hand.drop_last()) + if hand.last().rank == Rank::Ace {
            1nat
        } else {
            0nat
        }
    }
}

/// The best Blackjack value of a hand: one Ace counts 11 instead of 1 where
/// that keeps the hand at 21 or below; every other Ace counts 1.
pub open spec fn hand_value(hand: Seq<Card>) -> nat {
    if ace_count(hand) > 0 && hard_total(hand) + 10 <= 21 {
        hard_total(hand) + 10
    } else {
        hard_total(hand)
    }
}

/// Each Ace contributes at least its own point to the hard total.
pub proof fn lemma_aces_within_total(hand: Seq<Card>)
    ensures
        ace_count(hand) <= hard_total(hand),
        ace_count(hand) <= hand.len(),
    decreases hand.len(),
{
    if hand.len() > 0 {
        lemma_aces_within_total(hand.drop_last());
    }
}

/// Two hands that agree on the rank at every position have the same totals and
/// the same value, whichever side their cards show.
pub proof fn lemma_value_by_ranks(left: Seq<Card>, right: Seq<Card>)
    requires
        left.len() == right.len(),
        forall|i: int| 0 <= i < left.len() ==> left[i].rank == right[i].rank,
    ensures
        hard_total(left) == hard_total(right),
        ace_count(left) == ace_count(right),
        hand_value(left) == hand_value(right),
    decreases left.len(),
{
    if left.len() > 0 {
        lemma_value_by_ranks(left.drop_last(), right.drop_last());
    }
}

/// No hand counts an Ace as 11 twice: the value is the hard total or exceeds it
/// by exactly 10, and it exceeds it only where the hand holds an Ace and stays
/// at 21 or below.
pub proof fn lemma_at_most_one_ace_promoted(hand: Seq<Card>)
    ensures
        hand_value(hand) == hard_total(hand) || hand_value(hand) == hard_total(hand) + 10,
        hand_value(hand) != hard_total(hand) ==> ace_count(hand) >= 1 && hand_value(hand) <= 21,
        ace_count(hand) == 0 ==> hand_value(hand) == hard_total(hand),
{
}

/// Promoting Aces greedily, one at a time and as long as the total stays at 21
/// or below, promotes the first Ace where it fits and never a second one.
pub open spec fn greedy_promotion(total: nat, aces: nat) -> nat
    decreases aces,
{
    if aces == 0 {
        total
    } else if total + 10 <= 21 {
        greedy_promotion(total + 10, (aces - 1) as nat)
    } else {
        greedy_promotion(total, (aces - 1) as nat)
    }
}

/// Greedy promotion arrives at the hand's value.
pub proof fn lemma_greedy_promotion_is_value(hand: Seq<Card>)
    ensures
        greedy_promotion(hard_total(hand), ace_count(hand)) == hand_value(hand),
{
    lemma_aces_within_total(hand);
    let total = hard_total(hand);
    let aces = ace_count(hand);
    if aces > 0 {
        if total + 10 <= 21 {
            lemma_no_promotion_above_eleven(total + 10, (aces - 1) as nat);
        } else {
            lemma_no_promotion_above_eleven(total, (aces - 1) as nat);
        }
    }
}

/// Above 11 no Ace can be promoted any more.
pub proof fn lemma_no_promotion_above_eleven(total: nat, aces: nat)
    requires
        total > 11 || aces == 0,
    ensures
        greedy_promotion(total, aces) == total,
    decreases aces,
{
    if aces > 0 {
        lemma_no_promotion_above_eleven(total, (aces - 1) as nat);
    }
}

/// Computes the best value of a hand, whatever it holds and however long it
/// is. The result may exceed 21, which is a bust; it is never clamped.
pub fn get_hand_value(cards: &Vec<Card>) -> (value: u128)
    ensures
        value == hand_value(cards@),
{
    let mut value: u128 = 0;
    let mut aces: u128 = 0;
    let mut i: usize = 0;
    while i < cards.len()
        invariant
            i <= cards.len(),
            value + aces == hard_total(cards@.take(i as int)),
            aces == ace_count(cards@.take(i as int)),
            value <= 255 * i,
            aces <= i,
        decreases cards.len() - i,
    {
        assert(cards@.take(i + 1).drop_last() =~= cards@.take(i as int));
        match cards[i].rank {
            Rank::Number(x) => value += x as u128,
            Rank::Jack => value += 10,
            Rank::Queen => value += 10,
            Rank::King => value += 10,
            Rank::Ace => aces += 1,
        }
        i += 1;
    }
    assert(cards@.take(i as int) =~= cards@);
    value += aces;

    let ghost hard = value as nat;
    let mut tried: u128 = 0;
    while tried < aces
        invariant
            tried <= aces,
            aces <= hard,
            value == if tried > 0 && hard + 10 <= 21 {
                hard + 10
            } else {
                hard
            },
        decreases aces - tried,
    {
        if value <= 11 {
            value += 10;
        }
        tried += 1;
    }
    value
}

} // verus!
