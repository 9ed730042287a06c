use blackjack::card::{Card, Rank, Suit, Visibility};
use blackjack::game::{
    pay_out, settle, Action, Event, Outcome, Phase, Session, DEALER_STANDS_AT, STARTING_FUNDS,
    TARGET,
};
use blackjack::input::{Command, Move};

fn down(rank: Rank) -> Card {
    Card { suit: Suit::Heart, rank, state: Visibility::Hidden }
}

fn up(rank: Rank) -> Card {
    Card { suit: Suit::Heart, rank, state: Visibility::Visible }
}

/// A deck that gives the ranks in the order listed.
fn stacked(ranks: &[Rank]) -> Vec<Card> {
    ranks.iter().rev().map(|rank| down(*rank)).collect()
}

fn in_round(ranks: &[Rank], money: i64, bet: i64) -> Session {
    let mut session = Session::new(money, stacked(ranks));
    assert!(session.is_valid());
    assert_eq!(session.step(Event::Bet(bet)), Action::Dealt);
    assert!(session.is_valid());
    session
}

fn at_settlement(player: &[Rank], dealer: &[Rank], money: i64, bet: i64) -> Session {
    let session = Session {
        money,
        bet,
        deck: Vec::new(),
        player_hand: player.iter().map(|rank| up(*rank)).collect(),
        dealer_hand: dealer.iter().map(|rank| up(*rank)).collect(),
        phase: Phase::Settlement,
    };
    assert!(session.is_valid());
    session
}

#[test]
fn the_rules_use_21_and_17_and_5000() {
    assert_eq!(TARGET, 21);
    assert_eq!(DEALER_STANDS_AT, 17);
    assert_eq!(STARTING_FUNDS, 5000);
}

#[test]
fn player_bust_loses_whatever_the_dealer_has() {
    assert_eq!(settle(22, 18), Outcome::PlayerBust);
    assert_eq!(settle(22, 25), Outcome::PlayerBust);
    assert_eq!(settle(30, 21), Outcome::PlayerBust);
    assert_eq!(pay_out(100, 10, settle(22, 18)), 90);
}

#[test]
fn dealer_bust_pays_the_bet() {
    assert_eq!(settle(19, 22), Outcome::DealerBust);
    assert_eq!(settle(21, 26), Outcome::DealerBust);
    assert_eq!(pay_out(100, 10, settle(19, 22)), 110);
}

#[test]
fn equal_values_are_a_push() {
    assert_eq!(settle(20, 20), Outcome::Tie);
    assert_eq!(settle(21, 21), Outcome::Tie);
    assert_eq!(settle(17, 17), Outcome::Tie);
    assert_eq!(pay_out(100, 10, settle(20, 20)), 100);
}

#[test]
fn the_higher_value_wins() {
    assert_eq!(settle(20, 19), Outcome::Won);
    assert_eq!(settle(21, 17), Outcome::Won);
    assert_eq!(settle(18, 19), Outcome::Lost);
    assert_eq!(settle(4, 21), Outcome::Lost);
    assert_eq!(pay_out(100, 10, Outcome::Won), 110);
    assert_eq!(pay_out(100, 10, Outcome::Lost), 90);
}

#[test]
fn the_whole_funds_can_be_won_or_lost() {
    assert_eq!(pay_out(100, 100, Outcome::Lost), 0);
    assert_eq!(pay_out(100, 100, Outcome::PlayerBust), 0);
    assert_eq!(pay_out(100, 100, Outcome::Won), 200);
    assert_eq!(pay_out(100, 100, Outcome::DealerBust), 200);
    assert_eq!(pay_out(100, 100, Outcome::Tie), 100);
}

#[test]
fn a_session_opens_with_funds_and_a_full_deck() {
    let session = Session::open();
    assert_eq!(session.money, 5000);
    assert_eq!(session.bet, 0);
    assert_eq!(session.deck.len(), 52);
    assert!(session.player_hand.is_empty());
    assert!(session.dealer_hand.is_empty());
    assert_eq!(session.phase, Phase::Betting);
    assert!(!session.is_over());
    assert_eq!(session.max_bet(), 5000);
}

#[test]
fn a_session_without_funds_is_over_before_any_bet() {
    for money in [0, -1, i64::MIN] {
        let mut session = Session::new(money, stacked(&[Rank::Ace]));
        assert_eq!(session.phase, Phase::Broke);
        assert!(session.is_over());
        assert_eq!(session.step(Event::Bet(1)), Action::Rejected);
        assert_eq!(session.phase, Phase::Broke);
        assert_eq!(session.money, money);
        assert_eq!(session.deck.len(), 1);
    }
}

#[test]
fn the_funds_running_out_end_the_session_at_the_next_round() {
    let mut session = at_settlement(
        &[Rank::Number(10), Rank::Number(8)],
        &[Rank::Number(10), Rank::Number(9)],
        50,
        50,
    );
    assert_eq!(session.step(Event::Proceed), Action::Settled(Outcome::Lost));
    assert_eq!(session.money, 0);
    assert_eq!(session.phase, Phase::ContinueOrQuit);
    assert_eq!(session.step(Event::Command(Command::Continue)), Action::Broke);
    assert_eq!(session.phase, Phase::Broke);
    assert!(session.is_over());
    assert_eq!(session.step(Event::Bet(1)), Action::Rejected);
    assert_eq!(session.step(Event::Command(Command::Continue)), Action::Rejected);
    assert_eq!(session.phase, Phase::Broke);
}

#[test]
fn a_bet_out_of_range_is_rejected() {
    let mut session = Session::new(100, stacked(&[Rank::Ace; 4]));
    for amount in [0, -5, 101, i64::MAX, i64::MIN] {
        assert_eq!(session.step(Event::Bet(amount)), Action::Rejected);
        assert_eq!(session.phase, Phase::Betting);
        assert_eq!(session.bet, 0);
        assert_eq!(session.deck.len(), 4);
        assert!(session.player_hand.is_empty());
    }
    assert_eq!(session.step(Event::Bet(100)), Action::Dealt);
    assert_eq!(session.bet, 100);
}

#[test]
fn the_deal_gives_the_dealer_a_hole_card_and_all_others_face_up() {
    let session = in_round(
        &[Rank::Number(5), Rank::Number(6), Rank::Number(7), Rank::Number(8), Rank::Number(9)],
        100,
        10,
    );
    assert_eq!(session.dealer_hand, vec![down(Rank::Number(5)), up(Rank::Number(6))]);
    assert_eq!(session.player_hand, vec![up(Rank::Number(7)), up(Rank::Number(8))]);
    assert_eq!(session.deck, vec![down(Rank::Number(9))]);
    assert_eq!(session.phase, Phase::PlayerTurn);
    assert_eq!(session.money, 100);
    assert_eq!(session.bet, 10);
}

#[test]
fn the_deal_opens_a_new_deck_where_the_old_one_runs_out() {
    let mut session = Session::new(100, stacked(&[Rank::Number(5), Rank::Number(6)]));
    assert_eq!(session.step(Event::Bet(10)), Action::Dealt);
    assert_eq!(session.dealer_hand, vec![down(Rank::Number(5)), up(Rank::Number(6))]);
    assert_eq!(session.player_hand.len(), 2);
    assert!(session.player_hand.iter().all(|c| c.state == Visibility::Visible));
    assert_eq!(session.deck.len(), 50);
    assert_eq!(session.phase, Phase::PlayerTurn);

    let mut session = Session::new(100, Vec::new());
    assert_eq!(session.step(Event::Bet(10)), Action::Dealt);
    assert_eq!(session.deck.len(), 48);
    assert_eq!(session.dealer_hand[0].state, Visibility::Hidden);
    assert_eq!(session.dealer_hand[1].state, Visibility::Visible);
}

#[test]
fn a_hit_gives_one_card_and_awaits_the_next_move() {
    let mut session = in_round(
        &[Rank::Number(10), Rank::Number(7), Rank::Number(2), Rank::Number(3), Rank::Number(4)],
        100,
        10,
    );
    assert_eq!(session.step(Event::Move(Move::Hit)), Action::PlayerDrew(up(Rank::Number(4))));
    assert_eq!(
        session.player_hand,
        vec![up(Rank::Number(2)), up(Rank::Number(3)), up(Rank::Number(4))]
    );
    assert!(session.deck.is_empty());
    assert_eq!(session.phase, Phase::PlayerTurn);
    assert_eq!(session.bet, 10);
    assert_eq!(session.money, 100);
}

#[test]
fn a_hit_that_busts_ends_the_turn() {
    let mut session = in_round(
        &[Rank::Number(10), Rank::Number(7), Rank::King, Rank::Queen, Rank::Number(2)],
        100,
        10,
    );
    assert_eq!(session.step(Event::Move(Move::Hit)), Action::PlayerDrew(up(Rank::Number(2))));
    assert_eq!(session.phase, Phase::Reveal);
    assert_eq!(session.step(Event::Move(Move::Hit)), Action::Rejected);
    assert_eq!(session.step(Event::Proceed), Action::Revealed);
    assert_eq!(session.step(Event::Proceed), Action::Settled(Outcome::PlayerBust));
    assert_eq!(session.money, 90);
}

#[test]
fn the_dealer_still_draws_after_the_player_busts() {
    let mut session = in_round(
        &[Rank::Number(10), Rank::Number(2), Rank::King, Rank::Queen, Rank::Number(2), Rank::Number(9)],
        100,
        10,
    );
    assert_eq!(session.step(Event::Move(Move::Hit)), Action::PlayerDrew(up(Rank::Number(2))));
    assert_eq!(session.phase, Phase::DealerTurn);
    assert_eq!(session.step(Event::Proceed), Action::DealerDrew(up(Rank::Number(9))));
    assert_eq!(session.phase, Phase::Reveal);
    assert_eq!(session.step(Event::Proceed), Action::Revealed);
    assert_eq!(session.step(Event::Proceed), Action::Settled(Outcome::PlayerBust));
    assert_eq!(session.money, 90);
}

#[test]
fn standing_hands_the_turn_to_the_dealer() {
    let mut session = in_round(
        &[Rank::Number(10), Rank::Number(6), Rank::King, Rank::Queen, Rank::Number(3), Rank::Ace],
        100,
        10,
    );
    assert_eq!(session.step(Event::Move(Move::Stand)), Action::Stood);
    assert_eq!(session.phase, Phase::DealerTurn);
    assert_eq!(session.player_hand.len(), 2);
    assert_eq!(session.deck.len(), 2);
    assert_eq!(session.step(Event::Move(Move::Stand)), Action::Rejected);
    assert_eq!(session.step(Event::Proceed), Action::DealerDrew(up(Rank::Number(3))));
    assert_eq!(session.phase, Phase::Reveal);
    assert_eq!(session.deck, vec![down(Rank::Ace)]);
}

#[test]
fn the_dealer_stands_at_17() {
    let mut session =
        in_round(&[Rank::Number(10), Rank::Number(7), Rank::King, Rank::Queen], 100, 10);
    assert_eq!(session.step(Event::Move(Move::Stand)), Action::Stood);
    assert_eq!(session.phase, Phase::Reveal);
}

#[test]
fn the_dealer_stands_on_a_soft_17() {
    let mut session = in_round(&[Rank::Ace, Rank::Number(6), Rank::King, Rank::Queen], 100, 10);
    assert_eq!(session.step(Event::Move(Move::Stand)), Action::Stood);
    assert_eq!(session.phase, Phase::Reveal);
}

#[test]
fn the_dealer_draws_while_below_17() {
    let mut session = in_round(
        &[
            Rank::Number(2),
            Rank::Number(3),
            Rank::King,
            Rank::Queen,
            Rank::Number(4),
            Rank::Number(5),
            Rank::Number(2),
            Rank::Number(10),
        ],
        100,
        10,
    );
    assert_eq!(session.step(Event::Move(Move::Stand)), Action::Stood);
    assert_eq!(session.phase, Phase::DealerTurn);
    assert_eq!(session.step(Event::Proceed), Action::DealerDrew(up(Rank::Number(4))));
    assert_eq!(session.phase, Phase::DealerTurn);
    assert_eq!(session.step(Event::Proceed), Action::DealerDrew(up(Rank::Number(5))));
    assert_eq!(session.phase, Phase::DealerTurn);
    assert_eq!(session.step(Event::Proceed), Action::DealerDrew(up(Rank::Number(2))));
    assert_eq!(session.phase, Phase::DealerTurn);
    assert_eq!(session.step(Event::Proceed), Action::DealerDrew(up(Rank::Number(10))));
    assert_eq!(session.phase, Phase::Reveal);
    assert_eq!(session.dealer_hand.len(), 6);
    assert_eq!(session.step(Event::Proceed), Action::Revealed);
    assert_eq!(session.step(Event::Proceed), Action::Settled(Outcome::DealerBust));
    assert_eq!(session.money, 110);
}

#[test]
fn the_reveal_turns_the_hole_card_only() {
    let mut session =
        in_round(&[Rank::Number(10), Rank::Number(7), Rank::King, Rank::Queen], 100, 10);
    assert_eq!(session.step(Event::Move(Move::Stand)), Action::Stood);
    assert_eq!(session.dealer_hand[0], down(Rank::Number(10)));
    assert_eq!(session.step(Event::Proceed), Action::Revealed);
    assert_eq!(session.dealer_hand, vec![up(Rank::Number(10)), up(Rank::Number(7))]);
    assert_eq!(session.player_hand, vec![up(Rank::King), up(Rank::Queen)]);
    assert_eq!(session.phase, Phase::Settlement);
    assert_eq!(session.money, 100);
}

#[test]
fn settlement_moves_the_funds_by_the_bet() {
    let bust = [Rank::Number(10), Rank::Number(7), Rank::Number(5)];
    let eighteen = [Rank::Number(10), Rank::Number(8)];
    let nineteen = [Rank::Number(10), Rank::Number(9)];
    let twenty = [Rank::King, Rank::Queen];

    let mut session = at_settlement(&bust, &eighteen, 100, 10);
    assert_eq!(session.step(Event::Proceed), Action::Settled(Outcome::PlayerBust));
    assert_eq!(session.money, 90);

    let mut session = at_settlement(&nineteen, &bust, 100, 10);
    assert_eq!(session.step(Event::Proceed), Action::Settled(Outcome::DealerBust));
    assert_eq!(session.money, 110);

    let mut session = at_settlement(&twenty, &twenty, 100, 10);
    assert_eq!(session.step(Event::Proceed), Action::Settled(Outcome::Tie));
    assert_eq!(session.money, 100);

    let mut session = at_settlement(&twenty, &nineteen, 100, 10);
    assert_eq!(session.step(Event::Proceed), Action::Settled(Outcome::Won));
    assert_eq!(session.money, 110);

    let mut session = at_settlement(&eighteen, &nineteen, 100, 10);
    assert_eq!(session.step(Event::Proceed), Action::Settled(Outcome::Lost));
    assert_eq!(session.money, 90);
    assert_eq!(session.phase, Phase::ContinueOrQuit);
    assert_eq!(session.bet, 10);
}

#[test]
fn both_bust_is_the_players_loss() {
    let bust = [Rank::Number(10), Rank::Number(7), Rank::Number(5)];
    let mut session = at_settlement(&bust, &bust, 100, 10);
    assert_eq!(session.step(Event::Proceed), Action::Settled(Outcome::PlayerBust));
    assert_eq!(session.money, 90);
}

#[test]
fn continuing_starts_the_next_round_with_the_deck_as_it_is() {
    let mut session = in_round(
        &[Rank::Number(10), Rank::Number(7), Rank::King, Rank::Queen, Rank::Number(3)],
        100,
        10,
    );
    session.step(Event::Move(Move::Stand));
    session.step(Event::Proceed);
    assert_eq!(session.step(Event::Proceed), Action::Settled(Outcome::Won));
    assert_eq!(session.step(Event::Command(Command::Continue)), Action::NextRound);
    assert_eq!(session.phase, Phase::Betting);
    assert_eq!(session.money, 110);
    assert_eq!(session.deck, vec![down(Rank::Number(3))]);
    assert_eq!(session.max_bet(), 110);
    assert_eq!(session.step(Event::Bet(110)), Action::Dealt);
    assert_eq!(session.dealer_hand[0], down(Rank::Number(3)));
    assert_eq!(session.deck.len(), 49);
    assert_eq!(session.player_hand.len(), 2);
}

#[test]
fn quitting_ends_the_session() {
    let mut session = at_settlement(&[Rank::King, Rank::Queen], &[Rank::King, Rank::Number(9)], 100, 10);
    session.step(Event::Proceed);
    assert_eq!(session.step(Event::Command(Command::Quit)), Action::Quit);
    assert_eq!(session.phase, Phase::Quit);
    assert!(session.is_over());
    assert_eq!(session.money, 110);
    assert_eq!(session.step(Event::Command(Command::Continue)), Action::Rejected);
    assert_eq!(session.step(Event::Proceed), Action::Rejected);
    assert_eq!(session.phase, Phase::Quit);
}

#[test]
fn doubling_down_raises_the_bet_and_gives_exactly_one_card() {
    let mut session = in_round(
        &[Rank::Number(10), Rank::Number(7), Rank::Number(5), Rank::Number(6), Rank::Number(9), Rank::Ace],
        100,
        30,
    );
    assert_eq!(session.step(Event::Move(Move::DoubleDown)), Action::RaiseBet(30));
    assert_eq!(session.phase, Phase::Raising);
    assert_eq!(session.max_bet(), 30);
    assert_eq!(session.player_hand.len(), 2);
    assert_eq!(session.step(Event::Bet(20)), Action::DoubledDown(up(Rank::Number(9))));
    assert_eq!(session.bet, 50);
    assert_eq!(session.player_hand.len(), 3);
    assert_eq!(session.deck, vec![down(Rank::Ace)]);
    assert_eq!(session.phase, Phase::Reveal);
    assert_eq!(session.step(Event::Move(Move::Hit)), Action::Rejected);
    assert_eq!(session.step(Event::Proceed), Action::Revealed);
    assert_eq!(session.step(Event::Proceed), Action::Settled(Outcome::Won));
    assert_eq!(session.money, 150);
}

#[test]
fn the_raise_is_capped_by_the_funds_left() {
    let mut session =
        in_round(&[Rank::Number(10), Rank::Number(7), Rank::Number(5), Rank::Number(6), Rank::Number(9)], 100, 70);
    assert_eq!(session.step(Event::Move(Move::DoubleDown)), Action::RaiseBet(30));
    for amount in [0, -1, 31, 70] {
        assert_eq!(session.step(Event::Bet(amount)), Action::Rejected);
        assert_eq!(session.phase, Phase::Raising);
        assert_eq!(session.bet, 70);
        assert_eq!(session.player_hand.len(), 2);
    }
    assert_eq!(session.step(Event::Move(Move::Hit)), Action::Rejected);
    assert_eq!(session.step(Event::Bet(30)), Action::DoubledDown(up(Rank::Number(9))));
    assert_eq!(session.bet, 100);
}

#[test]
fn doubling_down_is_not_taken_without_funds_left() {
    let mut session =
        in_round(&[Rank::Number(10), Rank::Number(7), Rank::Number(5), Rank::Number(6)], 100, 100);
    assert_eq!(session.step(Event::Move(Move::DoubleDown)), Action::Rejected);
    assert_eq!(session.phase, Phase::PlayerTurn);
    assert_eq!(session.bet, 100);
    assert_eq!(session.player_hand.len(), 2);
    assert_eq!(session.max_bet(), 0);
}

#[test]
fn doubling_down_is_not_taken_after_a_hit() {
    let mut session = in_round(
        &[Rank::Number(10), Rank::Number(7), Rank::Number(2), Rank::Number(3), Rank::Number(4), Rank::Number(5)],
        100,
        10,
    );
    session.step(Event::Move(Move::Hit));
    assert_eq!(session.player_hand.len(), 3);
    assert_eq!(session.step(Event::Move(Move::DoubleDown)), Action::Rejected);
    assert_eq!(session.phase, Phase::PlayerTurn);
    assert_eq!(session.player_hand.len(), 3);
    assert_eq!(session.deck.len(), 1);
    assert_eq!(session.bet, 10);
}

#[test]
fn an_event_that_does_not_fit_the_phase_changes_nothing() {
    let mut session = Session::new(100, stacked(&[Rank::Ace; 8]));
    for event in [
        Event::Proceed,
        Event::Move(Move::Hit),
        Event::Move(Move::Stand),
        Event::Move(Move::DoubleDown),
        Event::Command(Command::Continue),
        Event::Command(Command::Quit),
    ] {
        assert_eq!(session.step(event), Action::Rejected);
        assert_eq!(session.phase, Phase::Betting);
        assert_eq!(session.deck.len(), 8);
        assert_eq!(session.money, 100);
    }
    session.step(Event::Bet(10));
    for event in [
        Event::Proceed,
        Event::Bet(5),
        Event::Command(Command::Continue),
        Event::Command(Command::Quit),
    ] {
        assert_eq!(session.step(event), Action::Rejected);
        assert_eq!(session.phase, Phase::PlayerTurn);
        assert_eq!(session.deck.len(), 4);
        assert_eq!(session.bet, 10);
    }
}

#[test]
fn a_session_plays_round_after_round_on_one_deck() {
    let mut session = Session::open();
    let mut rounds = 0;
    while !session.is_over() && rounds < 40 {
        assert_eq!(session.phase, Phase::Betting);
        assert_eq!(session.step(Event::Bet(1)), Action::Dealt);
        while session.phase == Phase::PlayerTurn {
            let action = session.step(Event::Move(Move::Hit));
            assert!(matches!(action, Action::PlayerDrew(_)));
        }
        while session.phase == Phase::DealerTurn {
            let action = session.step(Event::Proceed);
            assert!(matches!(action, Action::DealerDrew(_)));
        }
        assert_eq!(session.phase, Phase::Reveal);
        assert_eq!(session.step(Event::Proceed), Action::Revealed);
        assert!(session.dealer_hand.iter().all(|c| c.state == Visibility::Visible));
        let before = session.money;
        let action = session.step(Event::Proceed);
        assert_eq!(action, Action::Settled(Outcome::PlayerBust));
        assert_eq!(session.money, before - 1);
        assert!(session.deck.len() < 52);
        assert!(session.is_valid());
        assert_eq!(session.step(Event::Command(Command::Continue)), Action::NextRound);
        assert!(session.is_valid());
        rounds += 1;
    }
    assert_eq!(rounds, 40);
    assert_eq!(session.money, 5000 - 40);
}

#[test]
fn a_session_put_together_by_hand_is_tested_before_use() {
    let cards = |ranks: &[Rank]| -> Vec<Card> { ranks.iter().map(|rank| up(*rank)).collect() };
    let make = |phase: Phase, money: i64, bet: i64, player: &[Rank], dealer: &[Rank]| Session {
        money,
        bet,
        deck: Vec::new(),
        player_hand: cards(player),
        dealer_hand: cards(dealer),
        phase,
    };
    let twenty = [Rank::King, Rank::Queen];
    let twelve = [Rank::Number(5), Rank::Number(7)];
    let bust = [Rank::King, Rank::Queen, Rank::Number(5)];

    assert!(make(Phase::Betting, 1, 0, &[], &[]).is_valid());
    assert!(!make(Phase::Betting, 0, 0, &[], &[]).is_valid());
    assert!(make(Phase::Broke, 0, 0, &[], &[]).is_valid());
    assert!(make(Phase::Quit, -5, 0, &[], &[]).is_valid());
    assert!(make(Phase::ContinueOrQuit, 0, 10, &bust, &twenty).is_valid());

    assert!(make(Phase::PlayerTurn, 100, 10, &twenty, &twelve).is_valid());
    assert!(!make(Phase::PlayerTurn, 100, 10, &bust, &twelve).is_valid());
    assert!(!make(Phase::PlayerTurn, 100, 0, &twenty, &twelve).is_valid());
    assert!(!make(Phase::PlayerTurn, 100, 101, &twenty, &twelve).is_valid());
    assert!(!make(Phase::PlayerTurn, 100, 10, &[Rank::King], &twelve).is_valid());
    assert!(!make(Phase::PlayerTurn, 100, 10, &twenty, &[Rank::King]).is_valid());

    assert!(make(Phase::Raising, 100, 10, &twenty, &twelve).is_valid());
    assert!(!make(Phase::Raising, 100, 100, &twenty, &twelve).is_valid());
    assert!(!make(Phase::Raising, 100, 10, &[Rank::Ace, Rank::Ace, Rank::Ace], &twelve).is_valid());

    assert!(make(Phase::DealerTurn, 100, 10, &bust, &twelve).is_valid());
    assert!(!make(Phase::DealerTurn, 100, 10, &twenty, &twenty).is_valid());

    assert!(make(Phase::Reveal, 100, 10, &bust, &bust).is_valid());
    assert!(make(Phase::Settlement, 100, 100, &twenty, &twenty).is_valid());
    assert!(make(Phase::Settlement, 100, 10, &[Rank::King; 40], &twenty).is_valid());
    assert!(!make(Phase::Settlement, 100, 10, &[], &twenty).is_valid());
    assert!(!make(Phase::Settlement, 100, 10, &twenty, &[Rank::King]).is_valid());
    assert!(!make(Phase::Settlement, 100, -1, &twenty, &twenty).is_valid());
    assert!(!make(Phase::Reveal, 5, 10, &twenty, &twenty).is_valid());
}

#[test]
fn a_step_is_possible_unless_a_win_would_not_fit() {
    let cards = |ranks: &[Rank]| -> Vec<Card> { ranks.iter().map(|rank| up(*rank)).collect() };
    let make = |money: i64, bet: i64, player: &[Rank], dealer: &[Rank]| Session {
        money,
        bet,
        deck: Vec::new(),
        player_hand: cards(player),
        dealer_hand: cards(dealer),
        phase: Phase::Settlement,
    };
    let twenty = [Rank::King, Rank::Queen];
    let twelve = [Rank::Number(5), Rank::Number(7)];
    let bust = [Rank::King, Rank::Queen, Rank::Number(5)];

    assert!(make(100, 10, &twenty, &twelve).can_step());
    assert!(!make(i64::MAX, 1, &twenty, &twelve).can_step());
    assert!(!make(i64::MAX, 1, &twenty, &bust).can_step());
    assert!(make(i64::MAX - 1, 1, &twenty, &twelve).can_step());
    assert!(make(i64::MAX, 1, &twelve, &twenty).can_step());
    assert!(make(i64::MAX, i64::MAX, &bust, &twenty).can_step());
    assert!(make(i64::MAX, i64::MAX, &twenty, &twenty).can_step());
    assert!(!make(100, 0, &twenty, &twelve).can_step());

    let mut lost = make(i64::MAX, i64::MAX, &twelve, &twenty);
    assert_eq!(lost.step(Event::Proceed), Action::Settled(Outcome::Lost));
    assert_eq!(lost.money, 0);
    let mut tied = make(i64::MAX, i64::MAX, &twenty, &twenty);
    assert_eq!(tied.step(Event::Proceed), Action::Settled(Outcome::Tie));
    assert_eq!(tied.money, i64::MAX);
    let mut won = make(i64::MAX - 7, 7, &twenty, &twelve);
    assert_eq!(won.step(Event::Proceed), Action::Settled(Outcome::Won));
    assert_eq!(won.money, i64::MAX);

    let mut betting = Session::new(i64::MAX, Vec::new());
    assert!(betting.can_step());
    assert_eq!(betting.step(Event::Bet(i64::MAX)), Action::Dealt);
    assert!(betting.can_step());
}

#[test]
fn the_funds_move_only_where_the_outcome_moves_them() {
    assert_eq!(pay_out(i64::MAX, 1, Outcome::Lost), i64::MAX - 1);
    assert_eq!(pay_out(i64::MAX, i64::MAX, Outcome::PlayerBust), 0);
    assert_eq!(pay_out(i64::MAX, i64::MAX, Outcome::Tie), i64::MAX);
    assert_eq!(pay_out(i64::MIN, i64::MAX, Outcome::Tie), i64::MIN);
    assert_eq!(pay_out(i64::MIN, 1, Outcome::Won), i64::MIN + 1);
    assert_eq!(pay_out(0, i64::MAX, Outcome::DealerBust), i64::MAX);
}

#[test]
fn the_hole_card_is_dealt_face_down_whatever_the_deck_shows() {
    let deck: Vec<Card> = [Rank::Number(9), Rank::Number(8), Rank::Number(7), Rank::Number(6)]
        .iter()
        .map(|rank| up(*rank))
        .collect();
    let mut session = Session::new(100, deck);
    assert_eq!(session.step(Event::Bet(10)), Action::Dealt);
    assert_eq!(session.dealer_hand, vec![down(Rank::Number(6)), up(Rank::Number(7))]);
    assert_eq!(session.player_hand, vec![up(Rank::Number(8)), up(Rank::Number(9))]);
}

#[test]
fn a_session_takes_any_deck() {
    let odd = vec![down(Rank::Number(200)), down(Rank::Number(1)), down(Rank::Number(0)), down(Rank::Number(11))];
    let mut session = Session::new(100, odd);
    assert!(session.is_valid());
    assert_eq!(session.step(Event::Bet(10)), Action::Dealt);
    assert!(session.is_valid());
    assert_eq!(session.dealer_hand, vec![down(Rank::Number(11)), up(Rank::Number(0))]);
    assert_eq!(session.player_hand, vec![up(Rank::Number(1)), up(Rank::Number(200))]);
    assert_eq!(session.phase, Phase::DealerTurn);
    while session.phase == Phase::DealerTurn {
        assert!(matches!(session.step(Event::Proceed), Action::DealerDrew(_)));
        assert!(session.is_valid());
    }
    assert_eq!(session.step(Event::Proceed), Action::Revealed);
    assert_eq!(session.step(Event::Proceed), Action::Settled(Outcome::PlayerBust));
    assert_eq!(session.money, 90);
}
