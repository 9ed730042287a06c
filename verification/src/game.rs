//! The rules of a session: betting, the player's turn, the dealer's turn, the
//! reveal, the settlement and the choice to go on, as a machine that takes one
//! event at a time and says what happened.

use vstd::prelude::*;
use crate::card::{Card, Visibility, all_playable};
use crate::deck::{draw_cards, draws, get_deck, is_full_deck, lemma_draws_playable, lemma_full_deck};
use crate::input::{Command, Move, double_down_offered};
use crate::scoring::{get_hand_value, hand_value, hard_total, lemma_value_by_ranks};

verus! {

/// The funds a session starts with.
pub const STARTING_FUNDS: i64 = 5000;

/// The highest value of a hand that is not a bust.
pub const TARGET: u128 = 21;

/// The value from which the dealer takes no more cards.
pub const DEALER_STANDS_AT: u128 = 17;

/// Where a session stands.
#[derive(Clone, Copy, PartialEq, Eq, Debug, Structural)]
pub enum Phase {
    /// A bet between 1 and the funds is awaited.
    Betting,
    /// The player's move is awaited.
    PlayerTurn,
    /// The player has doubled down; the amount to add to the bet is awaited.
    Raising,
    /// The dealer is below 17 and takes a card next.
    DealerTurn,
    /// The hole card is about to be turned.
    Reveal,
    /// The hands are open and the bet is about to be settled.
    Settlement,
    /// The choice to continue or to quit is awaited.
    ContinueOrQuit,
    /// The session is over: the funds are gone.
    Broke,
    /// The session is over: the player quit.
    Quit,
}

/// How a round ended.
#[derive(Clone, Copy, PartialEq, Eq, Debug, Structural)]
pub enum Outcome {
    /// The player is above 21 and loses the bet, whatever the dealer has.
    PlayerBust,
    /// The dealer is above 21 and the player is not: the player wins the bet.
    DealerBust,
    /// Equal values: the bet goes back to the player.
    Tie,
    /// The dealer is closer to 21: the player loses the bet.
    Lost,
    /// The player is closer to 21: the player wins the bet.
    Won,
}

impl Outcome {
    /// The outcomes that add the bet to the funds.
    pub open spec fn adds_bet(self) -> bool {
        self == Outcome::DealerBust || self == Outcome::Won
    }

    /// The outcomes that take the bet from the funds.
    pub open spec fn takes_bet(self) -> bool {
        self == Outcome::PlayerBust || self == Outcome::Lost
    }
}

/// What is handed to a session to move it on.
#[derive(Clone, Copy, PartialEq, Eq, Debug, Structural)]
pub enum Event {
    /// An amount: the bet of a new round, or what doubling down adds to it.
    Bet(i64),
    /// The player's move.
    Move(Move),
    /// Nothing to choose: the dealer draws, the hole card is turned, or the
    /// bet is settled.
    Proceed,
    /// The player's choice after a round.
    Command(Command),
}

/// What a session did with an event.
#[derive(Clone, Copy, PartialEq, Eq, Debug, Structural)]
pub enum Action {
    /// The event does not fit the phase, or the amount is out of range.
    /// Nothing has changed.
    Rejected,
    /// The bet is placed and both hands are dealt.
    Dealt,
    /// The player took this card.
    PlayerDrew(Card),
    /// The player stands.
    Stood,
    /// The player doubles down and may add up to this amount to the bet.
    RaiseBet(i64),
    /// The bet is raised and the player took this card, the last of the turn.
    DoubledDown(Card),
    /// The dealer took this card.
    DealerDrew(Card),
    /// The hole card is turned.
    Revealed,
    /// The bet is settled.
    Settled(Outcome),
    /// A new round begins with the betting.
    NextRound,
    /// The funds are gone and the session is over.
    Broke,
    /// The player quit and the session is over.
    Quit,
}

/// A session of play: the funds, the current bet, the deck, both hands and the
/// phase.
#[derive(Debug)]
pub struct Session {
    pub money: i64,
    pub bet: i64,
    pub deck: Vec<Card>,
    pub player_hand: Vec<Card>,
    pub dealer_hand: Vec<Card>,
    pub phase: Phase,
}

/// A session as contracts see it.
#[verifier::ext_equal]
pub struct SessionState {
    pub money: int,
    pub bet: int,
    pub deck: Seq<Card>,
    pub player_hand: Seq<Card>,
    pub dealer_hand: Seq<Card>,
    pub phase: Phase,
}

impl View for Session {
    type V = SessionState;

    open spec fn view(&self) -> SessionState {
        SessionState {
            money: self.money as int,
            bet: self.bet as int,
            deck: self.deck@,
            player_hand: self.player_hand@,
            dealer_hand: self.dealer_hand@,
            phase: self.phase,
        }
    }
}

/// How a round ends on the two final values.
pub open spec fn outcome_of(player_value: nat, dealer_value: nat) -> Outcome {
    if player_value > TARGET {
        Outcome::PlayerBust
    } else if dealer_value > TARGET {
        Outcome::DealerBust
    } else if dealer_value == player_value {
        Outcome::Tie
    } else if dealer_value > player_value {
        Outcome::Lost
    } else {
        Outcome::Won
    }
}

/// The funds after a round: the bet is added where the player wins, taken
/// where the player loses, and a tie changes nothing.
pub open spec fn settled_funds(money: int, bet: int, outcome: Outcome) -> int {
    match outcome {
        Outcome::PlayerBust => money - bet,
        Outcome::DealerBust => money + bet,
        Outcome::Tie => money,
        Outcome::Lost => money - bet,
        Outcome::Won => money + bet,
    }
}

/// The most that doubling down may add: the bet once more, or the funds left
/// beyond it where they are less.
pub open spec fn raise_limit(money: int, bet: int) -> int {
    if bet <= money - bet {
        bet
    } else {
        money - bet
    }
}

/// The phase that follows the player's turn: the dealer draws while below 17;
/// from 17 on the hands are revealed.
pub open spec fn after_player_turn(dealer_hand: Seq<Card>) -> Phase {
    if hand_value(dealer_hand) < DEALER_STANDS_AT {
        Phase::DealerTurn
    } else {
        Phase::Reveal
    }
}

/// The phase that follows a card for the player: a bust ends the turn, else
/// the next move is awaited.
pub open spec fn after_player_card(player_hand: Seq<Card>, dealer_hand: Seq<Card>) -> Phase {
    if hand_value(player_hand) > TARGET {
        after_player_turn(dealer_hand)
    } else {
        Phase::PlayerTurn
    }
}

impl SessionState {
    /// A round in play: a bet within the funds and two or more cards in each
    /// hand.
    pub open spec fn hands_in_play(self) -> bool {
        &&& self.player_hand.len() >= 2
        &&& self.dealer_hand.len() >= 2
        &&& 0 < self.bet <= self.money
    }

    /// Every card of the session, in the deck and in both hands, has a rank
    /// that occurs in a deck.
    pub open spec fn cards_playable(self) -> bool {
        &&& all_playable(self.deck)
        &&& all_playable(self.player_hand)
        &&& all_playable(self.dealer_hand)
    }

    /// Whether the step to come adds the bet to the funds: the settlement of a
    /// round that the player wins.
    pub open spec fn settles_in_favour(self) -> bool {
        self.phase == Phase::Settlement && self.outcome().adds_bet()
    }

    /// What holds of a session in each phase.
    pub open spec fn wf(self) -> bool {
        &&& i64::MIN <= self.money <= i64::MAX
        &&& i64::MIN <= self.bet <= i64::MAX
        &&& match self.phase {
            Phase::Betting => self.money > 0,
            Phase::PlayerTurn => self.hands_in_play() && hand_value(self.player_hand) <= TARGET,
            Phase::Raising => self.hands_in_play() && hand_value(self.player_hand) <= TARGET
                && double_down_offered(self.player_hand.len(), self.money - self.bet),
            Phase::DealerTurn => self.hands_in_play() && hand_value(self.dealer_hand)
                < DEALER_STANDS_AT,
            Phase::Reveal => self.hands_in_play(),
            Phase::Settlement => self.hands_in_play(),
            Phase::ContinueOrQuit => true,
            Phase::Broke => true,
            Phase::Quit => true,
        }
    }

    /// The same session in another phase.
    pub open spec fn in_phase(self, phase: Phase) -> SessionState {
        SessionState { phase, ..self }
    }

    /// A bet is placed and the hands are dealt from the deck: the dealer gets
    /// one card face down and one face up, then the player two face up.
    pub open spec fn deals(self, amount: int, next: SessionState) -> bool {
        &&& next.money == self.money
        &&& next.bet == amount
        &&& next.dealer_hand.len() == 2
        &&& next.player_hand.len() == 2
        &&& next.dealer_hand[0].state == Visibility::Hidden
        &&& next.dealer_hand[1].state == Visibility::Visible
        &&& next.player_hand[0].state == Visibility::Visible
        &&& next.player_hand[1].state == Visibility::Visible
        &&& next.phase == after_player_card(next.player_hand, next.dealer_hand)
        &&& exists|first: Seq<Card>, second: Seq<Card>|
            {
                &&& draws(self.deck, 1, false, next.dealer_hand.take(1), first)
                &&& #[trigger] draws(first, 1, true, next.dealer_hand.skip(1), second)
                &&& draws(second, 2, true, next.player_hand, next.deck)
            }
    }

    /// The player takes `card` from the deck, face up.
    pub open spec fn player_draws(self, card: Card, next: SessionState) -> bool {
        &&& next.money == self.money
        &&& next.dealer_hand == self.dealer_hand
        &&& next.player_hand == self.player_hand.push(card)
        &&& card.state == Visibility::Visible
        &&& draws(self.deck, 1, true, seq![card], next.deck)
    }

    /// The dealer takes `card` from the deck, face up, and goes on below 17.
    pub open spec fn dealer_draws(self, card: Card, next: SessionState) -> bool {
        &&& next.money == self.money
        &&& next.bet == self.bet
        &&& next.player_hand == self.player_hand
        &&& next.dealer_hand == self.dealer_hand.push(card)
        &&& card.state == Visibility::Visible
        &&& draws(self.deck, 1, true, seq![card], next.deck)
        &&& next.phase == after_player_turn(next.dealer_hand)
    }

    /// The session with the dealer's first card turned face up.
    pub open spec fn revealed(self) -> SessionState {
        SessionState {
            dealer_hand: self.dealer_hand.update(
                0,
                self.dealer_hand[0].with_state(Visibility::Visible),
            ),
            phase: Phase::Settlement,
            ..self
        }
    }

    /// The outcome of the round on the hands as they stand.
    pub open spec fn outcome(self) -> Outcome {
        outcome_of(hand_value(self.player_hand), hand_value(self.dealer_hand))
    }

    /// The session with the bet settled.
    pub open spec fn settled(self) -> SessionState {
        SessionState {
            money: settled_funds(self.money, self.bet, self.outcome()),
            phase: Phase::ContinueOrQuit,
            ..self
        }
    }

    /// The phase in which the next round starts, or does not: without funds the
    /// session ends before any bet is asked for.
    pub open spec fn next_round_phase(self) -> Phase {
        if self.money <= 0 {
            Phase::Broke
        } else {
            Phase::Betting
        }
    }

    /// What an event does to a session: the session it leaves and the action
    /// it reports. An event that does not fit changes nothing.
    pub open spec fn transition(self, event: Event, next: SessionState, action: Action) -> bool {
        match (self.phase, event) {
            (Phase::Betting, Event::Bet(amount)) => if 0 < amount <= self.money {
                action == Action::Dealt && self.deals(amount as int, next)
            } else {
                action == Action::Rejected && next == self
            },
            (Phase::PlayerTurn, Event::Move(Move::Hit)) => {
                &&& action matches Action::PlayerDrew(card)
                &&& self.player_draws(card, next)
                &&& next.bet == self.bet
                &&& next.phase == after_player_card(next.player_hand, next.dealer_hand)
            },
            (Phase::PlayerTurn, Event::Move(Move::Stand)) => {
                &&& action == Action::Stood
                &&& next == self.in_phase(after_player_turn(self.dealer_hand))
            },
            (Phase::PlayerTurn, Event::Move(Move::DoubleDown)) => if double_down_offered(
                self.player_hand.len(),
                self.money - self.bet,
            ) {
                &&& action == Action::RaiseBet(raise_limit(self.money, self.bet) as i64)
                &&& next == self.in_phase(Phase::Raising)
            } else {
                action == Action::Rejected && next == self
            },
            (Phase::Raising, Event::Bet(amount)) => if 0 < amount <= raise_limit(
                self.money,
                self.bet,
            ) {
                &&& action matches Action::DoubledDown(card)
                &&& self.player_draws(card, next)
                &&& next.bet == self.bet + amount
                &&& next.phase == after_player_turn(next.dealer_hand)
            } else {
                action == Action::Rejected && next == self
            },
            (Phase::DealerTurn, Event::Proceed) => {
                &&& action matches Action::DealerDrew(card)
                &&& self.dealer_draws(card, next)
            },
            (Phase::Reveal, Event::Proceed) => {
                &&& action == Action::Revealed
                &&& next == self.revealed()
            },
            (Phase::Settlement, Event::Proceed) => {
                &&& action == Action::Settled(self.outcome())
                &&& next == self.settled()
            },
            (Phase::ContinueOrQuit, Event::Command(Command::Continue)) => {
                &&& action == if self.money <= 0 {
                    Action::Broke
                } else {
                    Action::NextRound
                }
                &&& next == self.in_phase(self.next_round_phase())
            },
            (Phase::ContinueOrQuit, Event::Command(Command::Quit)) => {
                &&& action == Action::Quit
                &&& next == self.in_phase(Phase::Quit)
            },
            _ => action == Action::Rejected && next == self,
        }
    }
}

/// Tells how a round ends on the two final values: a player above 21 loses
/// whatever the dealer has; else a dealer above 21 pays; else the higher value
/// wins and equal values tie.
pub fn settle(player_value: u128, dealer_value: u128) -> (outcome: Outcome)
    ensures
        outcome == outcome_of(player_value as nat, dealer_value as nat),
{
    if player_value > TARGET {
        Outcome::PlayerBust
    } else if dealer_value > TARGET {
        Outcome::DealerBust
    } else if dealer_value == player_value {
        Outcome::Tie
    } else if dealer_value > player_value {
        Outcome::Lost
    } else {
        Outcome::Won
    }
}

/// The funds after a round that ended in `outcome`. Where the outcome moves
/// the bet, the funds with the bet added or taken must fit.
pub fn pay_out(money: i64, bet: i64, outcome: Outcome) -> (funds: i64)
    requires
        outcome.adds_bet() ==> i64::MIN <= money + bet <= i64::MAX,
        outcome.takes_bet() ==> i64::MIN <= money - bet <= i64::MAX,
    ensures
        funds == settled_funds(money as int, bet as int, outcome),
{
    match outcome {
        Outcome::PlayerBust => money - bet,
        Outcome::DealerBust => money + bet,
        Outcome::Tie => money,
        Outcome::Lost => money - bet,
        Outcome::Won => money + bet,
    }
}

/// A hand of two cards with ranks of play totals at most 20 with its Aces at
/// 1, and is worth at most 21.
pub proof fn lemma_two_cards_never_bust(hand: Seq<Card>)
    requires
        hand.len() == 2,
        all_playable(hand),
    ensures
        hard_total(hand) <= 20,
        hand_value(hand) <= TARGET,
{
    reveal_with_fuel(hard_total, 3);
}

/// The deal never busts the player: after it the first move is awaited.
pub proof fn lemma_deal_awaits_move(before: SessionState, amount: int, after: SessionState)
    requires
        all_playable(before.deck),
        before.deals(amount, after),
    ensures
        after.cards_playable(),
        hand_value(after.player_hand) <= TARGET,
        hand_value(after.dealer_hand) <= TARGET,
        after.phase == Phase::PlayerTurn,
{
    let (first, second) = choose|first: Seq<Card>, second: Seq<Card>|
        {
            &&& draws(before.deck, 1, false, after.dealer_hand.take(1), first)
            &&& #[trigger] draws(first, 1, true, after.dealer_hand.skip(1), second)
            &&& draws(second, 2, true, after.player_hand, after.deck)
        };
    lemma_draws_playable(before.deck, 1, false, after.dealer_hand.take(1), first);
    lemma_draws_playable(first, 1, true, after.dealer_hand.skip(1), second);
    lemma_draws_playable(second, 2, true, after.player_hand, after.deck);
    assert forall|i: int| 0 <= i < after.dealer_hand.len() implies (
    #[trigger] after.dealer_hand[i]).is_playable() by {
        if i == 0 {
            assert(after.dealer_hand.take(1)[0].is_playable());
        } else {
            assert(after.dealer_hand.skip(1)[0].is_playable());
        }
    }
    lemma_two_cards_never_bust(after.player_hand);
    lemma_two_cards_never_bust(after.dealer_hand);
}

/// Turning the hole card changes neither hand's value, so the round is
/// settled on the values that the hands had before the reveal.
pub proof fn lemma_reveal_keeps_values(before: SessionState)
    requires
        before.dealer_hand.len() > 0,
    ensures
        hand_value(before.revealed().dealer_hand) == hand_value(before.dealer_hand),
        hand_value(before.revealed().player_hand) == hand_value(before.player_hand),
        before.revealed().outcome() == before.outcome(),
{
    lemma_value_by_ranks(before.dealer_hand, before.revealed().dealer_hand);
}

/// Doubling down is never taken where it is not on offer: with a hand of
/// another size than two, or without funds left beyond the bet, the move is
/// rejected and nothing changes.
pub proof fn lemma_double_down_needs_offer(
    before: SessionState,
    after: SessionState,
    action: Action,
)
    requires
        before.phase == Phase::PlayerTurn,
        before.player_hand.len() != 2 || before.money - before.bet <= 0,
        before.transition(Event::Move(Move::DoubleDown), after, action),
    ensures
        action == Action::Rejected,
        after == before,
{
}

/// No bet is asked for without funds: a session whose funds are gone when the
/// next round is due ends there, and while it awaits a bet it has funds.
pub proof fn lemma_no_bet_without_funds(
    before: SessionState,
    event: Event,
    after: SessionState,
    action: Action,
)
    requires
        before.wf(),
        before.transition(event, after, action),
    ensures
        before.phase == Phase::Betting ==> before.money > 0,
        before.phase != Phase::Betting && after.phase == Phase::Betting ==> after.money > 0
            && action == Action::NextRound,
        before.phase == Phase::ContinueOrQuit && before.money <= 0 ==> after.phase
            != Phase::Betting && action != Action::NextRound,
        before.phase == Phase::ContinueOrQuit && before.money <= 0 && event == Event::Command(
            Command::Continue,
        ) ==> after.phase == Phase::Broke && action == Action::Broke,
{
}

/// A session that is over stays as it is, whatever the event.
pub proof fn lemma_over_is_final(
    before: SessionState,
    event: Event,
    after: SessionState,
    action: Action,
)
    requires
        before.phase == Phase::Broke || before.phase == Phase::Quit,
        before.transition(event, after, action),
    ensures
        after == before,
        action == Action::Rejected,
{
}

/// Settling moves the funds by the bet or not at all: a bust of the player
/// loses the bet whatever the dealer has, equal values change nothing.
pub proof fn lemma_settlement(money: int, bet: int, player_value: nat, dealer_value: nat)
    ensures
        player_value > TARGET ==> settled_funds(
            money,
            bet,
            outcome_of(player_value, dealer_value),
        ) == money - bet,
        player_value <= TARGET && dealer_value > TARGET ==> settled_funds(
            money,
            bet,
            outcome_of(player_value, dealer_value),
        ) == money + bet,
        player_value <= TARGET && dealer_value == player_value ==> settled_funds(
            money,
            bet,
            outcome_of(player_value, dealer_value),
        ) == money,
        player_value < dealer_value <= TARGET ==> settled_funds(
            money,
            bet,
            outcome_of(player_value, dealer_value),
        ) == money - bet,
        dealer_value < player_value <= TARGET ==> settled_funds(
            money,
            bet,
            outcome_of(player_value, dealer_value),
        ) == money + bet,
{
}

impl Session {
    /// What holds of a session in each phase.
    pub open spec fn wf(&self) -> bool {
        self@.wf()
    }

    /// A session with the given funds and deck, before its first round. Without
    /// funds it is over at once.
    pub fn new(money: i64, deck: Vec<Card>) -> (session: Session)
        ensures
            session.wf(),
            session.money == money,
            session.bet == 0,
            session.deck@ == deck@,
            session.player_hand@.len() == 0,
            session.dealer_hand@.len() == 0,
            session.phase == session@.next_round_phase(),
    {
        let phase = if money <= 0 {
            Phase::Broke
        } else {
            Phase::Betting
        };
        Session {
            money,
            bet: 0,
            deck,
            player_hand: Vec::new(),
            dealer_hand: Vec::new(),
            phase,
        }
    }

    /// A session with the starting funds and a newly shuffled deck, ready for
    /// the first bet.
    pub fn open() -> (session: Session)
        ensures
            session.wf(),
            session@.cards_playable(),
            session.money == STARTING_FUNDS,
            session.bet == 0,
            is_full_deck(session.deck@),
            session.player_hand@.len() == 0,
            session.dealer_hand@.len() == 0,
            session.phase == Phase::Betting,
    {
        let deck = get_deck();
        proof {
            lemma_full_deck(deck@);
        }
        Session::new(STARTING_FUNDS, deck)
    }

    /// Whether the round in play is as it must be.
    fn round_in_play(&self) -> (ok: bool)
        ensures
            ok == self@.hands_in_play(),
    {
        self.player_hand.len() >= 2 && self.dealer_hand.len() >= 2 && 0 < self.bet && self.bet
            <= self.money
    }

    /// Tests what `wf` states, for a session that was put together by hand.
    pub fn is_valid(&self) -> (valid: bool)
        ensures
            valid == self.wf(),
    {
        match self.phase {
            Phase::Betting => self.money > 0,
            Phase::PlayerTurn => self.round_in_play() && get_hand_value(&self.player_hand)
                <= TARGET,
            Phase::Raising => self.round_in_play() && get_hand_value(&self.player_hand) <= TARGET
                && self.player_hand.len() == 2 && self.money - self.bet > 0,
            Phase::DealerTurn => self.round_in_play() && get_hand_value(&self.dealer_hand)
                < DEALER_STANDS_AT,
            Phase::Reveal => self.round_in_play(),
            Phase::Settlement => self.round_in_play(),
            Phase::ContinueOrQuit => true,
            Phase::Broke => true,
            Phase::Quit => true,
        }
    }

    /// Tests what `step` asks of a session: that it is as `wf` states and,
    /// where the step to come adds the bet to the funds, that the sum fits.
    pub fn can_step(&self) -> (ok: bool)
        ensures
            ok == (self.wf() && (self@.settles_in_favour() ==> self.money + self.bet
                <= i64::MAX)),
    {
        if !self.is_valid() {
            return false;
        }
        match self.phase {
            Phase::Settlement => {
                match settle(
                    get_hand_value(&self.player_hand),
                    get_hand_value(&self.dealer_hand),
                ) {
                    Outcome::DealerBust => self.bet <= i64::MAX - self.money,
                    Outcome::Won => self.bet <= i64::MAX - self.money,
                    _ => true,
                }
            },
            _ => true,
        }
    }

    /// Whether the session is over.
    pub fn is_over(&self) -> (over: bool)
        ensures
            over == (self.phase == Phase::Broke || self.phase == Phase::Quit),
    {
        match self.phase {
            Phase::Broke => true,
            Phase::Quit => true,
            _ => false,
        }
    }

    /// The highest amount that the session accepts next: the funds while
    /// betting, the limit of the raise after doubling down, and nothing in any
    /// other phase.
    pub fn max_bet(&self) -> (limit: i64)
        requires
            self.wf(),
        ensures
            limit == match self.phase {
                Phase::Betting => self.money as int,
                Phase::Raising => raise_limit(self.money as int, self.bet as int),
                _ => 0,
            },
    {
        match self.phase {
            Phase::Betting => self.money,
            Phase::Raising => {
                let rest: i64 = self.money - self.bet;
                if self.bet <= rest {
                    self.bet
                } else {
                    rest
                }
            },
            _ => 0,
        }
    }

    /// The phase that follows the player's turn, by the dealer's hand.
    fn phase_after_player_turn(&self) -> (phase: Phase)
        ensures
            phase == after_player_turn(self.dealer_hand@),
    {
        if get_hand_value(&self.dealer_hand) < DEALER_STANDS_AT {
            Phase::DealerTurn
        } else {
            Phase::Reveal
        }
    }

    /// The phase that follows a card for the player.
    fn phase_after_player_card(&self) -> (phase: Phase)
        ensures
            phase == after_player_card(self.player_hand@, self.dealer_hand@),
    {
        if get_hand_value(&self.player_hand) > TARGET {
            self.phase_after_player_turn()
        } else {
            Phase::PlayerTurn
        }
    }

    /// Takes one card from the deck, face up, with both hands at hand in case a
    /// new deck must be opened.
    fn take_card(&mut self) -> (card: Card)
        ensures
            draws(old(self).deck@, 1, true, seq![card], final(self).deck@),
            card.state == Visibility::Visible,
            all_playable(old(self).deck@) ==> card.is_playable() && all_playable(
                final(self).deck@,
            ),
            final(self).money == old(self).money,
            final(self).bet == old(self).bet,
            final(self).phase == old(self).phase,
            final(self).player_hand@ == old(self).player_hand@,
            final(self).dealer_hand@ == old(self).dealer_hand@,
    {
        let drawn = draw_cards(
            &mut self.deck,
            Some(&self.player_hand),
            Some(&self.dealer_hand),
            1,
            true,
        );
        let card = drawn[0];
        proof {
            assert(drawn@ =~= seq![card]);
            if all_playable(old(self).deck@) {
                lemma_draws_playable(old(self).deck@, 1, true, drawn@, self.deck@);
            }
        }
        card
    }

    /// Places the bet and deals both hands: to the dealer one card face down
    /// and one face up, then two face up to the player.
    fn deal(&mut self, amount: i64)
        requires
            old(self).wf(),
            old(self).phase == Phase::Betting,
            0 < amount <= old(self).money,
        ensures
            final(self).wf(),
            old(self)@.deals(amount as int, final(self)@),
            old(self)@.cards_playable() ==> final(self)@.cards_playable(),
    {
        let mut dealer = draw_cards(&mut self.deck, None, None, 1, false);
        let ghost first = self.deck@;
        let ghost hole = dealer@;
        let up = draw_cards(&mut self.deck, None, None, 1, true);
        let ghost second = self.deck@;
        dealer.push(up[0]);
        let player = draw_cards(&mut self.deck, None, None, 2, true);
        proof {
            assert(dealer@.take(1) =~= hole);
            assert(dealer@.skip(1) =~= up@);
            if all_playable(old(self).deck@) {
                lemma_draws_playable(old(self).deck@, 1, false, hole, first);
                lemma_draws_playable(first, 1, true, up@, second);
                lemma_draws_playable(second, 2, true, player@, self.deck@);
            }
        }
        self.dealer_hand = dealer;
        self.player_hand = player;
        self.bet = amount;
        self.phase = self.phase_after_player_card();
    }

    /// Gives the player one card.
    fn hit(&mut self) -> (card: Card)
        requires
            old(self).wf(),
            old(self).phase == Phase::PlayerTurn || old(self).phase == Phase::Raising,
        ensures
            old(self)@.player_draws(card, final(self)@),
            final(self).bet == old(self).bet,
            final(self).phase == old(self).phase,
            final(self)@.hands_in_play(),
            old(self)@.cards_playable() ==> final(self)@.cards_playable(),
    {
        let card = self.take_card();
        self.player_hand.push(card);
        card
    }

    /// Moves the session on by one event and reports what happened. An event
    /// that does not fit the phase, or an amount out of range, is rejected and
    /// changes nothing. Where the step settles a round that the player wins,
    /// the funds with the bet added must fit. A session whose cards all have
    /// ranks of play keeps such cards.
    pub fn step(&mut self, event: Event) -> (action: Action)
        requires
            old(self).wf(),
            old(self)@.settles_in_favour() ==> old(self).money + old(self).bet <= i64::MAX,
        ensures
            final(self).wf(),
            old(self)@.transition(event, final(self)@, action),
            old(self)@.cards_playable() ==> final(self)@.cards_playable(),
    {
        match (self.phase, event) {
            (Phase::Betting, Event::Bet(amount)) => {
                if 0 < amount && amount <= self.money {
                    self.deal(amount);
                    Action::Dealt
                } else {
                    Action::Rejected
                }
            },
            (Phase::PlayerTurn, Event::Move(Move::Hit)) => {
                let card = self.hit();
                self.phase = self.phase_after_player_card();
                Action::PlayerDrew(card)
            },
            (Phase::PlayerTurn, Event::Move(Move::Stand)) => {
                self.phase = self.phase_after_player_turn();
                Action::Stood
            },
            (Phase::PlayerTurn, Event::Move(Move::DoubleDown)) => {
                if self.player_hand.len() == 2 && self.money - self.bet > 0 {
                    self.phase = Phase::Raising;
                    Action::RaiseBet(self.max_bet())
                } else {
                    Action::Rejected
                }
            },
            (Phase::Raising, Event::Bet(amount)) => {
                if 0 < amount && amount <= self.max_bet() {
                    let card = self.hit();
                    self.bet = self.bet + amount;
                    self.phase = self.phase_after_player_turn();
                    Action::DoubledDown(card)
                } else {
                    Action::Rejected
                }
            },
            (Phase::DealerTurn, Event::Proceed) => {
                let card = self.take_card();
                self.dealer_hand.push(card);
                self.phase = self.phase_after_player_turn();
                Action::DealerDrew(card)
            },
            (Phase::Reveal, Event::Proceed) => {
                let mut hole = self.dealer_hand[0];
                hole.state = Visibility::Visible;
                self.dealer_hand.set(0, hole);
                self.phase = Phase::Settlement;
                Action::Revealed
            },
            (Phase::Settlement, Event::Proceed) => {
                let outcome = settle(
                    get_hand_value(&self.player_hand),
                    get_hand_value(&self.dealer_hand),
                );
                self.money = pay_out(self.money, self.bet, outcome);
                self.phase = Phase::ContinueOrQuit;
                Action::Settled(outcome)
            },
            (Phase::ContinueOrQuit, Event::Command(Command::Continue)) => {
                if self.money <= 0 {
                    self.phase = Phase::Broke;
                    Action::Broke
                } else {
                    self.phase = Phase::Betting;
                    Action::NextRound
                }
            },
            (Phase::ContinueOrQuit, Event::Command(Command::Quit)) => {
                self.phase = Phase::Quit;
                Action::Quit
            },
            _ => Action::Rejected,
        }
    }
}

} // verus!
