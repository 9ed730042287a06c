//! The 52-card deck: building and shuffling it, drawing from it, and opening a
//! new deck when it runs out.

use vstd::prelude::*;
use rand::rngs::ThreadRng;
use rand::seq::SliceRandom;
use crate::card::{Card, Rank, Suit, Visibility, all_playable};

verus! {

/// The number of cards in a deck.
pub const DECK_SIZE: usize = 52;

/// The number of cards with a number rank: nine ranks in four suits.
pub const NUMBER_CARDS: usize = 36;

/// The card at position `i` of a deck before it is shuffled: the numbers 2 to
/// 10, each in all four suits, then the four faces suit by suit. Every card
/// lies face down.
pub open spec fn ordered_card(i: int) -> Card {
    if i < NUMBER_CARDS {
        Card { suit: Suit::at(i % 4), rank: Rank::Number((2 + i / 4) as u8), state: Visibility::Hidden }
    } else {
        Card {
            suit: Suit::at((i - NUMBER_CARDS) / 4),
            rank: Rank::face_at((i - NUMBER_CARDS) % 4),
            state: Visibility::Hidden,
        }
    }
}

/// The deck before it is shuffled.
pub open spec fn ordered_deck() -> Seq<Card> {
    Seq::new(DECK_SIZE as nat, |i: int| ordered_card(i))
}

/// A full deck in some order: the cards of the ordered deck, each exactly as
/// often as there.
pub open spec fn is_full_deck(deck: Seq<Card>) -> bool {
    deck.to_multiset() =~= ordered_deck().to_multiset()
}

/// No two positions of the ordered deck hold the same suit and rank.
pub proof fn lemma_ordered_deck_distinct(i: int, j: int)
    requires
        0 <= i < DECK_SIZE,
        0 <= j < DECK_SIZE,
        i != j,
    ensures
        ordered_card(i).suit != ordered_card(j).suit || ordered_card(i).rank != ordered_card(
            j,
        ).rank,
{
}

/// Every suit paired with every rank of play lies somewhere in the ordered deck.
pub proof fn lemma_ordered_deck_complete(suit: Suit, rank: Rank) -> (i: int)
    requires
        rank.is_playable(),
    ensures
        0 <= i < DECK_SIZE,
        ordered_card(i) == Card::face_down(suit, rank),
{
    let s: int = match suit {
        Suit::Heart => 0,
        Suit::Diamond => 1,
        Suit::Spade => 2,
        Suit::Club => 3,
    };
    match rank {
        Rank::Number(n) => 4 * (n - 2) + s,
        Rank::Jack => NUMBER_CARDS + 4 * s,
        Rank::Queen => NUMBER_CARDS + 4 * s + 1,
        Rank::King => NUMBER_CARDS + 4 * s + 2,
        Rank::Ace => NUMBER_CARDS + 4 * s + 3,
    }
}

/// What holds of a full deck in any order: it has 52 cards, all face down and
/// all of a rank of play; no card occurs twice, not even by suit and rank
/// alone; and every suit is there with every rank.
pub proof fn lemma_full_deck(deck: Seq<Card>)
    requires
        is_full_deck(deck),
    ensures
        deck.len() == DECK_SIZE,
        deck.no_duplicates(),
        all_playable(deck),
        forall|i: int| 0 <= i < deck.len() ==> (#[trigger] deck[i]).state == Visibility::Hidden,
        forall|i: int, j: int|
            0 <= i < deck.len() && 0 <= j < deck.len() && i != j ==> (#[trigger] deck[i]).suit != (
            #[trigger] deck[j]).suit || deck[i].rank != deck[j].rank,
        forall|suit: Suit, rank: Rank|
            rank.is_playable() ==> deck.contains(#[trigger] Card::face_down(suit, rank)),
{
    broadcast use vstd::seq_lib::group_to_multiset_ensures;

    let ordered = ordered_deck();
    assert(ordered.no_duplicates()) by {
        assert forall|i: int, j: int|
            0 <= i < ordered.len() && 0 <= j < ordered.len() && i != j implies ordered[i]
            != ordered[j] by {
            lemma_ordered_deck_distinct(i, j);
        }
    }
    ordered.lemma_multiset_has_no_duplicates();
    deck.lemma_multiset_has_no_duplicates_conv();
    assert(ordered.len() == ordered.to_multiset().len());
    assert forall|i: int| 0 <= i < deck.len() implies (#[trigger] deck[i]).is_playable()
        && deck[i].state == Visibility::Hidden by {
        lemma_member_of_ordered(deck, i);
    }
    assert forall|i: int, j: int| 0 <= i < deck.len() && 0 <= j < deck.len() && i != j implies (
    #[trigger] deck[i]).suit != (#[trigger] deck[j]).suit || deck[i].rank != deck[j].rank by {
        lemma_member_of_ordered(deck, i);
        lemma_member_of_ordered(deck, j);
    }
    assert forall|suit: Suit, rank: Rank| rank.is_playable() implies deck.contains(
        #[trigger] Card::face_down(suit, rank),
    ) by {
        let k: int = lemma_ordered_deck_complete(suit, rank);
        let card = Card::face_down(suit, rank);
        assert(ordered[k] == card);
        ordered.to_multiset_ensures();
        deck.to_multiset_ensures();
        assert(deck.to_multiset().count(card) > 0);
    }
}

/// Each card of a full deck is one of the ordered deck's cards.
proof fn lemma_member_of_ordered(deck: Seq<Card>, i: int)
    requires
        is_full_deck(deck),
        0 <= i < deck.len(),
    ensures
        deck[i].is_playable(),
        deck[i].state == Visibility::Hidden,
        exists|k: int| 0 <= k < DECK_SIZE && deck[i] == ordered_card(k),
{
    broadcast use vstd::seq_lib::group_to_multiset_ensures;

    let ordered = ordered_deck();
    assert(ordered.to_multiset().count(deck[i]) > 0);
    let k: int = choose|k: int| 0 <= k < ordered.len() && ordered[k] == deck[i];
    assert(deck[i] == ordered_card(k));
}

/// Builds the deck in its fixed order, before any shuffle.
pub fn new_ordered_deck() -> (deck: Vec<Card>)
    ensures
        deck@ == ordered_deck(),
{
    let suits = Suit::values();
    let faces = Rank::faces();
    let mut deck: Vec<Card> = Vec::new();
    let mut rank: u8 = 2;
    while rank < 11
        invariant
            2 <= rank <= 11,
            deck@.len() == 4 * (rank - 2),
            forall|i: int| 0 <= i < 4 ==> suits@[i] == Suit::at(i),
            forall|i: int| 0 <= i < deck@.len() ==> deck@[i] == ordered_card(i),
        decreases 11 - rank,
    {
        let mut s: usize = 0;
        while s < 4
            invariant
                s <= 4,
                2 <= rank < 11,
                deck@.len() == 4 * (rank - 2) + s,
                forall|i: int| 0 <= i < 4 ==> suits@[i] == Suit::at(i),
                forall|i: int| 0 <= i < deck@.len() ==> deck@[i] == ordered_card(i),
            decreases 4 - s,
        {
            deck.push(Card { suit: suits[s], rank: Rank::Number(rank), state: Visibility::Hidden });
            s += 1;
        }
        rank += 1;
    }
    let mut s: usize = 0;
    while s < 4
        invariant
            s <= 4,
            deck@.len() == NUMBER_CARDS + 4 * s,
            forall|i: int| 0 <= i < 4 ==> suits@[i] == Suit::at(i),
            forall|i: int| 0 <= i < 4 ==> faces@[i] == Rank::face_at(i),
            forall|i: int| 0 <= i < deck@.len() ==> deck@[i] == ordered_card(i),
        decreases 4 - s,
    {
        let mut f: usize = 0;
        while f < 4
            invariant
                f <= 4,
                s < 4,
                deck@.len() == NUMBER_CARDS + 4 * s + f,
                forall|i: int| 0 <= i < 4 ==> suits@[i] == Suit::at(i),
                forall|i: int| 0 <= i < 4 ==> faces@[i] == Rank::face_at(i),
                forall|i: int| 0 <= i < deck@.len() ==> deck@[i] == ordered_card(i),
            decreases 4 - f,
        {
            deck.push(Card { suit: suits[s], rank: faces[f], state: Visibility::Hidden });
            f += 1;
        }
        s += 1;
    }
    deck
}

/// `rand::rngs::ThreadRng`, the handle to a thread's random number generator.
/// It is carried from where it is made to where it is used; nothing in it is
/// looked at.
#[verifier::external_type_specification]
#[verifier::external_body]
pub struct ExThreadRng(ThreadRng);

/// `rand::thread_rng` hands out the calling thread's random number generator,
/// which the system seeds on first use; it gives up only where the system has
/// no entropy to seed it with. Nothing is claimed of the generator or of the
/// numbers it will give.
pub assume_specification[ rand::thread_rng ]() -> (rng: ThreadRng)
;

/// `rand::seq::SliceRandom::shuffle` on the cards as a slice. It walks the
/// slice from its end and swaps each position with one that the generator
/// picks at or before it, so all it does is reorder: the cards after the call
/// are the cards before it, each as often as before. Which order comes out is
/// left to the generator, which gives up only where the system has no entropy
/// to seed it with anew.
#[verifier::external_body]
fn shuffle_cards(cards: &mut Vec<Card>, rng: &mut ThreadRng)
    ensures
        final(cards)@.to_multiset() =~= old(cards)@.to_multiset(),
{
    cards.shuffle(rng);
}

/// Builds a deck of 52 cards, all face down, and shuffles it.
pub fn get_deck() -> (deck: Vec<Card>)
    ensures
        is_full_deck(deck@),
        deck@.len() == DECK_SIZE,
{
    let mut deck = new_ordered_deck();
    let mut rng = rand::thread_rng();
    shuffle_cards(&mut deck, &mut rng);
    proof {
        lemma_full_deck(deck@);
    }
    deck
}

/// Whether `card` occurs among `cards`, same suit, rank and side up.
pub fn contains_card(cards: &Vec<Card>, card: &Card) -> (found: bool)
    ensures
        found == cards@.contains(*card),
{
    let mut i: usize = 0;
    while i < cards.len()
        invariant
            i <= cards.len(),
            forall|k: int| 0 <= k < i ==> cards@[k] != *card,
        decreases cards.len() - i,
    {
        if cards[i] == *card {
            return true;
        }
        i += 1;
    }
    false
}

/// A card of a new deck is dropped only where the player's hand, the dealer's
/// hand and the old deck all three hold it; it stays as soon as one of them
/// does not.
pub open spec fn survives(card: Card, deck: Seq<Card>, player: Seq<Card>, dealer: Seq<Card>) -> bool {
    !player.contains(card) || !dealer.contains(card) || !deck.contains(card)
}

/// The cards of `fresh` that survive, in their order.
pub open spec fn survivors(
    fresh: Seq<Card>,
    deck: Seq<Card>,
    player: Seq<Card>,
    dealer: Seq<Card>,
) -> Seq<Card> {
    fresh.filter(|card: Card| survives(card, deck, player, dealer))
}

/// Filtering a sequence and then forgetting the order is filtering its multiset.
pub proof fn lemma_filter_to_multiset(cards: Seq<Card>, keep: spec_fn(Card) -> bool)
    ensures
        cards.filter(keep).to_multiset() =~= cards.to_multiset().filter(keep),
    decreases cards.len(),
{
    broadcast use vstd::multiset::group_multiset_axioms;
    broadcast use vstd::seq_lib::group_to_multiset_ensures;

    reveal(Seq::filter);
    if cards.len() > 0 {
        let front = cards.drop_last();
        lemma_filter_to_multiset(front, keep);
        assert(front.push(cards.last()) =~= cards);
    }
}

/// Drops from a new deck the cards that do not survive, keeping the order of
/// the others.
pub fn keep_survivors(
    fresh: &Vec<Card>,
    deck: &Vec<Card>,
    player_hand: &Vec<Card>,
    dealer_hand: &Vec<Card>,
) -> (kept: Vec<Card>)
    ensures
        kept@ == survivors(fresh@, deck@, player_hand@, dealer_hand@),
{
    let ghost keep = |card: Card| survives(card, deck@, player_hand@, dealer_hand@);
    let mut kept: Vec<Card> = Vec::new();
    let mut i: usize = 0;
    proof {
        reveal(Seq::filter);
    }
    while i < fresh.len()
        invariant
            i <= fresh.len(),
            keep == |card: Card| survives(card, deck@, player_hand@, dealer_hand@),
            kept@ == fresh@.take(i as int).filter(keep),
        decreases fresh.len() - i,
    {
        let card = fresh[i];
        proof {
            reveal(Seq::filter);
            assert(fresh@.take(i + 1).drop_last() =~= fresh@.take(i as int));
        }
        if !contains_card(player_hand, &card) || !contains_card(dealer_hand, &card)
            || !contains_card(deck, &card) {
            kept.push(card);
        }
        i += 1;
    }
    assert(fresh@.take(i as int) =~= fresh@);
    kept
}

/// Opens a new shuffled deck in place of `deck` and drops from it each card
/// that the player's hand, the dealer's hand and `deck` all hold. What comes
/// back is, in some order, the ordered deck's cards that survive. The test is
/// loose on purpose: a card held by one hand alone stays in the new deck. In
/// place of an empty `deck` comes a full deck.
pub fn shuffle_discarded_into_new_deck(
    deck: &Vec<Card>,
    player_hand: &Vec<Card>,
    dealer_hand: &Vec<Card>,
) -> (cards: Vec<Card>)
    ensures
        cards@.to_multiset() =~= ordered_deck().to_multiset().filter(
            |card: Card| survives(card, deck@, player_hand@, dealer_hand@),
        ),
        deck@.len() == 0 ==> is_full_deck(cards@),
{
    let fresh = get_deck();
    let cards = keep_survivors(&fresh, deck, player_hand, dealer_hand);
    proof {
        broadcast use vstd::multiset::group_multiset_axioms;

        let keep = |card: Card| survives(card, deck@, player_hand@, dealer_hand@);
        lemma_filter_to_multiset(fresh@, keep);
        if deck@.len() == 0 {
            assert forall|card: Card| #[trigger]
                survives(card, deck@, player_hand@, dealer_hand@) by {
                assert(!deck@.contains(card));
            }
        }
    }
    cards
}

/// The first `count` cards to leave `deck`, which gives its last card first,
/// each as it is dealt.
pub open spec fn taken(deck: Seq<Card>, count: nat, visible: bool) -> Seq<Card> {
    Seq::new(count, |i: int| deck[deck.len() - 1 - i].dealt(visible))
}

/// A new deck `fresh` is opened and gives the first of `count` cards: `fresh`
/// is a full deck and is dealt from its end. Where it has enough cards, `drawn`
/// are all from it and `rest` is what it keeps. Where more than its 52 are
/// wanted, it gives the first 52 of `drawn`.
pub open spec fn draws_opening(
    fresh: Seq<Card>,
    count: nat,
    visible: bool,
    drawn: Seq<Card>,
    rest: Seq<Card>,
) -> bool {
    is_full_deck(fresh) && if count <= DECK_SIZE {
        &&& drawn == taken(fresh, count, visible)
        &&& rest == fresh.take(DECK_SIZE - count)
    } else {
        &&& drawn.len() == count
        &&& drawn.take(DECK_SIZE as int) == taken(fresh, DECK_SIZE as nat, visible)
    }
}

/// `drawn` are `count` cards taken from new decks alone, and `rest` is what is
/// left of the last of them: a full deck is opened and dealt from its end;
/// when it has given all 52 cards and more are wanted, the next one is opened
/// for the cards after the first 52.
pub open spec fn draws_from_new_decks(
    count: nat,
    visible: bool,
    drawn: Seq<Card>,
    rest: Seq<Card>,
) -> bool
    decreases count,
{
    &&& exists|fresh: Seq<Card>| draws_opening(fresh, count, visible, drawn, rest)
    &&& count > DECK_SIZE ==> draws_from_new_decks(
        (count - DECK_SIZE) as nat,
        visible,
        drawn.skip(DECK_SIZE as int),
        rest,
    )
}

/// `drawn` are the `count` cards that a draw takes, in order, and `rest` is the
/// deck it leaves. While `deck` lasts the cards come from its end and nothing
/// else happens to it. Once it is empty and another card is wanted, the cards
/// come from new decks.
pub open spec fn draws(
    deck: Seq<Card>,
    count: nat,
    visible: bool,
    drawn: Seq<Card>,
    rest: Seq<Card>,
) -> bool {
    if count <= deck.len() {
        &&& drawn == taken(deck, count, visible)
        &&& rest == deck.take(deck.len() - count)
    } else {
        &&& drawn.len() == count
        &&& drawn.take(deck.len() as int) == taken(deck, deck.len(), visible)
        &&& draws_from_new_decks(
            (count - deck.len()) as nat,
            visible,
            drawn.skip(deck.len() as int),
            rest,
        )
    }
}

/// How many new decks a draw of `count` cards opens on a deck of `deck_len`
/// cards: none while the deck lasts, then one for every 52 cards or part of it.
pub open spec fn decks_opened(deck_len: nat, count: nat) -> nat {
    if count <= deck_len {
        0
    } else {
        ((count - deck_len + DECK_SIZE - 1) / (DECK_SIZE as int)) as nat
    }
}

/// One more card from new decks, where the deck in use still has one.
proof fn lemma_next_from_new_decks(count: nat, visible: bool, drawn: Seq<Card>, rest: Seq<Card>)
    requires
        draws_from_new_decks(count, visible, drawn, rest),
        rest.len() > 0,
    ensures
        draws_from_new_decks(
            count + 1,
            visible,
            drawn.push(rest.last().dealt(visible)),
            rest.drop_last(),
        ),
    decreases count,
{
    let next = drawn.push(rest.last().dealt(visible));
    let fresh = choose|fresh: Seq<Card>| draws_opening(fresh, count, visible, drawn, rest);
    lemma_full_deck(fresh);
    if count <= DECK_SIZE {
        assert(next =~= taken(fresh, count + 1, visible));
        assert(rest.drop_last() =~= fresh.take(DECK_SIZE - (count + 1)));
    } else {
        lemma_next_from_new_decks(
            (count - DECK_SIZE) as nat,
            visible,
            drawn.skip(DECK_SIZE as int),
            rest,
        );
        assert(next.take(DECK_SIZE as int) =~= drawn.take(DECK_SIZE as int));
        assert(next.skip(DECK_SIZE as int) =~= drawn.skip(DECK_SIZE as int).push(
            rest.last().dealt(visible),
        ));
    }
    assert(draws_opening(fresh, count + 1, visible, next, rest.drop_last()));
}

/// One more card from new decks, where the deck in use has run out and `opened`
/// takes its place.
proof fn lemma_reopen_from_new_decks(
    count: nat,
    visible: bool,
    drawn: Seq<Card>,
    rest: Seq<Card>,
    opened: Seq<Card>,
)
    requires
        draws_from_new_decks(count, visible, drawn, rest),
        rest.len() == 0,
        is_full_deck(opened),
    ensures
        draws_from_new_decks(
            count + 1,
            visible,
            drawn.push(opened.last().dealt(visible)),
            opened.drop_last(),
        ),
    decreases count,
{
    let next = drawn.push(opened.last().dealt(visible));
    let fresh = choose|fresh: Seq<Card>| draws_opening(fresh, count, visible, drawn, rest);
    lemma_full_deck(fresh);
    lemma_full_deck(opened);
    if count <= DECK_SIZE {
        assert(next.take(DECK_SIZE as int) =~= drawn);
        lemma_first_from_new_deck(visible, next.skip(DECK_SIZE as int), opened);
    } else {
        lemma_reopen_from_new_decks(
            (count - DECK_SIZE) as nat,
            visible,
            drawn.skip(DECK_SIZE as int),
            rest,
            opened,
        );
        assert(next.take(DECK_SIZE as int) =~= drawn.take(DECK_SIZE as int));
        assert(next.skip(DECK_SIZE as int) =~= drawn.skip(DECK_SIZE as int).push(
            opened.last().dealt(visible),
        ));
    }
    assert(draws_opening(fresh, count + 1, visible, next, opened.drop_last()));
}

/// The first card of a newly opened deck.
proof fn lemma_first_from_new_deck(visible: bool, drawn: Seq<Card>, opened: Seq<Card>)
    requires
        is_full_deck(opened),
        drawn =~= seq![opened.last().dealt(visible)],
    ensures
        draws_from_new_decks(1, visible, drawn, opened.drop_last()),
{
    lemma_full_deck(opened);
    assert(drawn =~= taken(opened, 1, visible));
    assert(draws_opening(opened, 1, visible, drawn, opened.drop_last()));
}

/// A draw that has taken `count` cards takes one more from a deck that still
/// has one.
proof fn lemma_draw_next(
    deck: Seq<Card>,
    count: nat,
    visible: bool,
    drawn: Seq<Card>,
    rest: Seq<Card>,
)
    requires
        draws(deck, count, visible, drawn, rest),
        rest.len() > 0,
    ensures
        draws(deck, count + 1, visible, drawn.push(rest.last().dealt(visible)), rest.drop_last()),
{
    let next = drawn.push(rest.last().dealt(visible));
    let n: int = deck.len() as int;
    if count <= deck.len() {
        assert(next =~= taken(deck, count + 1, visible));
        assert(rest.drop_last() =~= deck.take(n - (count + 1)));
    } else {
        lemma_next_from_new_decks((count - deck.len()) as nat, visible, drawn.skip(n), rest);
        assert(next.take(n) =~= drawn.take(n));
        assert(next.skip(n) =~= drawn.skip(n).push(rest.last().dealt(visible)));
    }
}

/// A draw that has emptied the deck takes its next card from the deck opened
/// in its place.
proof fn lemma_draw_reopen(
    deck: Seq<Card>,
    count: nat,
    visible: bool,
    drawn: Seq<Card>,
    rest: Seq<Card>,
    opened: Seq<Card>,
)
    requires
        draws(deck, count, visible, drawn, rest),
        rest.len() == 0,
        is_full_deck(opened),
    ensures
        count >= deck.len(),
        draws(
            deck,
            count + 1,
            visible,
            drawn.push(opened.last().dealt(visible)),
            opened.drop_last(),
        ),
{
    let next = drawn.push(opened.last().dealt(visible));
    let n: int = deck.len() as int;
    if count <= deck.len() {
        assert(next.take(n) =~= drawn);
        lemma_first_from_new_deck(visible, next.skip(n), opened);
    } else {
        lemma_reopen_from_new_decks(
            (count - deck.len()) as nat,
            visible,
            drawn.skip(n),
            rest,
            opened,
        );
        assert(next.take(n) =~= drawn.take(n));
        assert(next.skip(n) =~= drawn.skip(n).push(opened.last().dealt(visible)));
    }
}

/// Draws `draw_count` cards from the end of the deck, each face up when
/// `visible` and face down when not. When the deck is empty and a card is
/// wanted, a new deck is opened first; a hand that is not given counts as an
/// empty one.
pub fn draw_cards(
    deck: &mut Vec<Card>,
    player_hand: Option<&Vec<Card>>,
    dealer_hand: Option<&Vec<Card>>,
    draw_count: u8,
    visible: bool,
) -> (drawn_cards: Vec<Card>)
    ensures
        draws(old(deck)@, draw_count as nat, visible, drawn_cards@, final(deck)@),
        drawn_cards@.len() == draw_count,
        forall|i: int|
            0 <= i < draw_count ==> (#[trigger] drawn_cards@[i]).state == Visibility::drawn(
                visible,
            ),
{
    let ghost start = deck@;
    let no_cards: Vec<Card> = Vec::new();
    let player: &Vec<Card> = match player_hand {
        Some(hand) => hand,
        None => &no_cards,
    };
    let dealer: &Vec<Card> = match dealer_hand {
        Some(hand) => hand,
        None => &no_cards,
    };
    let mut drawn_cards: Vec<Card> = Vec::new();
    let mut i: u8 = 0;
    proof {
        assert(drawn_cards@ =~= taken(start, 0, visible));
        assert(deck@ =~= start.take(start.len() - 0));
    }
    while i < draw_count
        invariant
            i <= draw_count,
            drawn_cards@.len() == i,
            draws(start, i as nat, visible, drawn_cards@, deck@),
            forall|k: int|
                0 <= k < i ==> (#[trigger] drawn_cards@[k]).state == Visibility::drawn(visible),
        decreases draw_count - i,
    {
        let ghost before = deck@;
        if deck.is_empty() {
            let opened = shuffle_discarded_into_new_deck(deck, player, dealer);
            *deck = opened;
            proof {
                lemma_full_deck(deck@);
                lemma_draw_reopen(start, i as nat, visible, drawn_cards@, before, deck@);
            }
        } else {
            proof {
                lemma_draw_next(start, i as nat, visible, drawn_cards@, before);
            }
        }
        let mut card = deck.pop().unwrap();
        card.state = if visible {
            Visibility::Visible
        } else {
            Visibility::Hidden
        };
        drawn_cards.push(card);
        i += 1;
    }
    drawn_cards
}

/// The size of the deck after a draw: what it had, less the cards
/// drawn, plus 52 for each deck opened.
pub proof fn lemma_draws_deck_len(
    deck: Seq<Card>,
    count: nat,
    visible: bool,
    drawn: Seq<Card>,
    rest: Seq<Card>,
)
    requires
        draws(deck, count, visible, drawn, rest),
    ensures
        drawn.len() == count,
        rest.len() + count == deck.len() + DECK_SIZE * decks_opened(deck.len(), count),
{
    if count > deck.len() {
        lemma_new_decks_len((count - deck.len()) as nat, visible, drawn.skip(deck.len() as int), rest);
    }
}

/// The size of the deck in use after `count` cards came from new decks.
proof fn lemma_new_decks_len(count: nat, visible: bool, drawn: Seq<Card>, rest: Seq<Card>)
    requires
        draws_from_new_decks(count, visible, drawn, rest),
        count > 0,
    ensures
        drawn.len() == count,
        rest.len() + count == DECK_SIZE * decks_opened(0, count),
    decreases count,
{
    let fresh = choose|fresh: Seq<Card>| draws_opening(fresh, count, visible, drawn, rest);
    lemma_full_deck(fresh);
    if count > DECK_SIZE {
        lemma_new_decks_len(
            (count - DECK_SIZE) as nat,
            visible,
            drawn.skip(DECK_SIZE as int),
            rest,
        );
    }
}

/// Drawing no more cards than the deck holds opens no new deck: the cards come
/// from the end of the deck, which is left shorter by exactly `count` and
/// otherwise as it was.
pub proof fn lemma_draw_within_deck(
    deck: Seq<Card>,
    count: nat,
    visible: bool,
    drawn: Seq<Card>,
    rest: Seq<Card>,
)
    requires
        count <= deck.len(),
        draws(deck, count, visible, drawn, rest),
    ensures
        decks_opened(deck.len(), count) == 0,
        rest.len() == deck.len() - count,
        rest == deck.take(deck.len() - count),
        drawn == taken(deck, count, visible),
{
}

/// Drawing from an empty deck opens exactly one new deck, a full one, where the
/// draw asks for at least one card and for no more than a deck holds: the cards
/// drawn and the deck left are that one deck's cards.
pub proof fn lemma_draw_from_empty_deck(
    count: nat,
    visible: bool,
    drawn: Seq<Card>,
    rest: Seq<Card>,
)
    requires
        1 <= count <= DECK_SIZE,
        draws(Seq::<Card>::empty(), count, visible, drawn, rest),
    ensures
        decks_opened(0, count) == 1,
        rest.len() == DECK_SIZE - count,
        exists|opened: Seq<Card>|
            is_full_deck(opened) && opened.len() == DECK_SIZE && drawn == taken(
                opened,
                count,
                visible,
            ) && rest == opened.take(DECK_SIZE - count),
{
    assert(drawn.skip(0) =~= drawn);
    let opened = choose|fresh: Seq<Card>| draws_opening(fresh, count, visible, drawn, rest);
    lemma_full_deck(opened);
}

/// Cards drawn from new decks, and what is left of them, have ranks of play.
proof fn lemma_new_decks_playable(count: nat, visible: bool, drawn: Seq<Card>, rest: Seq<Card>)
    requires
        draws_from_new_decks(count, visible, drawn, rest),
    ensures
        all_playable(drawn),
        all_playable(rest),
    decreases count,
{
    let fresh = choose|fresh: Seq<Card>| draws_opening(fresh, count, visible, drawn, rest);
    lemma_full_deck(fresh);
    if count > DECK_SIZE {
        let head = drawn.take(DECK_SIZE as int);
        let tail = drawn.skip(DECK_SIZE as int);
        lemma_new_decks_playable((count - DECK_SIZE) as nat, visible, tail, rest);
        assert forall|i: int| 0 <= i < drawn.len() implies (#[trigger] drawn[i]).is_playable() by {
            if i < DECK_SIZE {
                assert(drawn[i] == head[i]);
            } else {
                assert(drawn[i] == tail[i - DECK_SIZE]);
            }
        }
    }
}

/// A draw from a deck whose cards have ranks of play gives such cards and
/// leaves such a deck.
pub proof fn lemma_draws_playable(
    deck: Seq<Card>,
    count: nat,
    visible: bool,
    drawn: Seq<Card>,
    rest: Seq<Card>,
)
    requires
        all_playable(deck),
        draws(deck, count, visible, drawn, rest),
    ensures
        all_playable(drawn),
        all_playable(rest),
{
    if count > deck.len() {
        let n: int = deck.len() as int;
        let head = drawn.take(n);
        let tail = drawn.skip(n);
        lemma_new_decks_playable((count - deck.len()) as nat, visible, tail, rest);
        assert forall|i: int| 0 <= i < drawn.len() implies (#[trigger] drawn[i]).is_playable() by {
            if i < n {
                assert(drawn[i] == head[i]);
            } else {
                assert(drawn[i] == tail[i - n]);
            }
        }
    }
}

/// Cards drawn from new decks show the side that the draw asked for.
proof fn lemma_new_decks_sides(count: nat, visible: bool, drawn: Seq<Card>, rest: Seq<Card>)
    requires
        draws_from_new_decks(count, visible, drawn, rest),
    ensures
        forall|i: int|
            0 <= i < drawn.len() ==> (#[trigger] drawn[i]).state == Visibility::drawn(visible),
    decreases count,
{
    let fresh = choose|fresh: Seq<Card>| draws_opening(fresh, count, visible, drawn, rest);
    if count > DECK_SIZE {
        let head = drawn.take(DECK_SIZE as int);
        let tail = drawn.skip(DECK_SIZE as int);
        lemma_new_decks_sides((count - DECK_SIZE) as nat, visible, tail, rest);
        assert forall|i: int| 0 <= i < drawn.len() implies (#[trigger] drawn[i]).state
            == Visibility::drawn(visible) by {
            if i < DECK_SIZE {
                assert(drawn[i] == head[i]);
            } else {
                assert(drawn[i] == tail[i - DECK_SIZE]);
            }
        }
    }
}

/// Every card drawn shows the side that the draw asked for, whichever side it
/// showed in the deck: face up when `visible`, face down when not.
pub proof fn lemma_draws_sides(
    deck: Seq<Card>,
    count: nat,
    visible: bool,
    drawn: Seq<Card>,
    rest: Seq<Card>,
)
    requires
        draws(deck, count, visible, drawn, rest),
    ensures
        forall|i: int|
            0 <= i < drawn.len() ==> (#[trigger] drawn[i]).state == Visibility::drawn(visible),
{
    if count > deck.len() {
        let n: int = deck.len() as int;
        let head = drawn.take(n);
        let tail = drawn.skip(n);
        lemma_new_decks_sides((count - deck.len()) as nat, visible, tail, rest);
        assert forall|i: int| 0 <= i < drawn.len() implies (#[trigger] drawn[i]).state
            == Visibility::drawn(visible) by {
            if i < n {
                assert(drawn[i] == head[i]);
            } else {
                assert(drawn[i] == tail[i - n]);
            }
        }
    }
}

} // verus!
