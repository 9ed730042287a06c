//! What a line typed by the player means: a bet, a move, or the choice to go
//! on or to quit.

use vstd::prelude::*;
use crate::card::Card;

verus! {

/// What the player may do on their turn.
#[derive(Clone, Copy, PartialEq, Eq, Debug, Structural)]
pub enum Move {
    Hit,
    Stand,
    DoubleDown,
}

/// What the player may do after a round.
#[derive(Clone, Copy, PartialEq, Eq, Debug, Structural)]
pub enum Command {
    Continue,
    Quit,
}

/// The characters that count as white space: those with the Unicode property
/// White_Space, which are the controls from tab to carriage return, the blank,
/// the next-line control, the no-break space, the Ogham space mark, the
/// spaces of fixed width from U+2000 to U+200A, the line and the paragraph
/// separator, the narrow no-break space, the medium mathematical space and
/// the ideographic space.
pub open spec fn is_white_space(c: char) -> bool {
    let code: int = c as int;
    ||| 0x09 <= code <= 0x0D
    ||| code == 0x20
    ||| code == 0x85
    ||| code == 0xA0
    ||| code == 0x1680
    ||| 0x2000 <= code <= 0x200A
    ||| code == 0x2028
    ||| code == 0x2029
    ||| code == 0x202F
    ||| code == 0x205F
    ||| code == 0x3000
}

/// The text without the white space it begins with.
pub open spec fn trimmed_start(text: Seq<char>) -> Seq<char>
    decreases text.len(),
{
    if text.len() > 0 && is_white_space(text[0]) {
        trimmed_start(text.skip(1))
    } else {
        text
    }
}

/// The text without the white space it ends with.
pub open spec fn trimmed_end(text: Seq<char>) -> Seq<char>
    decreases text.len(),
{
    if text.len() > 0 && is_white_space(text.last()) {
        trimmed_end(text.drop_last())
    } else {
        text
    }
}

/// The text without the white space at either end.
pub open spec fn trimmed(text: Seq<char>) -> Seq<char> {
    trimmed_end(trimmed_start(text))
}

/// The text that `str::to_uppercase` gives for a text.
pub uninterp spec fn uppercased(text: Seq<char>) -> Seq<char>;

/// One of the decimal digits `0` to `9`.
pub open spec fn is_decimal_digit(c: char) -> bool {
    '0' as int <= c as int <= '9' as int
}

/// The number that a row of decimal digits writes.
pub open spec fn decimal_value(digits: Seq<char>) -> int
    decreases digits.len(),
{
    if digits.len() == 0 {
        0
    } else {
        10 * decimal_value(digits.drop_last()) + (digits.last() as int - '0' as int)
    }
}

/// At least one character, and decimal digits only.
pub open spec fn all_decimal_digits(text: Seq<char>) -> bool {
    text.len() > 0 && forall|i: int| 0 <= i < text.len() ==> is_decimal_digit(#[trigger] text[i])
}

/// The number that a text writes in decimal: an optional `+` or `-`, then
/// digits only. Any other text writes none.
pub open spec fn signed_decimal(text: Seq<char>) -> Option<int> {
    let signed = text.len() > 0 && (text[0] == '-' || text[0] == '+');
    let digits = if signed {
        text.skip(1)
    } else {
        text
    };
    if !all_decimal_digits(digits) {
        None
    } else if signed && text[0] == '-' {
        Some(-decimal_value(digits))
    } else {
        Some(decimal_value(digits))
    }
}

/// The number that a text writes in decimal, where it writes one that an `i64`
/// holds.
pub open spec fn parsed_i64(text: Seq<char>) -> Option<i64> {
    match signed_decimal(text) {
        Some(value) => if i64::MIN <= value <= i64::MAX {
            Some(value as i64)
        } else {
            None
        },
        None => None,
    }
}

/// `str::trim`, which returns the text without its leading and trailing white
/// space, white space being the characters with the Unicode property
/// White_Space. What lies between stays as it is.
#[verifier::external_body]
fn trim(text: &str) -> (inner: &str)
    ensures
        inner@ == trimmed(text@),
{
    text.trim()
}

/// `str::to_uppercase`, which returns the text with each character replaced by
/// its upper case. The result is a function of the text alone and goes by the
/// name `uppercased`.
#[verifier::external_body]
fn to_uppercase(text: &str) -> (upper: String)
    ensures
        upper@ == uppercased(text@),
{
    text.to_uppercase()
}

/// `str::parse::<i64>`, which expects an optional `+` or `-` followed by
/// decimal digits only, and fails on an empty text, on a sign alone, on any
/// other character (white space too) and on a number that an `i64` does not
/// hold. The number read is the one the digits write; the reason of a failure
/// is dropped.
#[verifier::external_body]
fn parse_i64(text: &str) -> (number: Option<i64>)
    ensures
        number == parsed_i64(text@),
{
    match text.parse::<i64>() {
        Ok(value) => Some(value),
        Err(_) => None,
    }
}

/// The bet that an entry stands for: the number read, where one was read and
/// it lies between 1 and `max_bet`.
pub open spec fn accepted_bet(parsed: Option<i64>, max_bet: i64) -> Option<i64> {
    match parsed {
        Some(bet) => if 0 < bet <= max_bet {
            Some(bet)
        } else {
            None
        },
        None => None,
    }
}

/// Accepts a number as a bet where it lies between 1 and `max_bet`.
pub fn check_bet(parsed: Option<i64>, max_bet: i64) -> (bet: Option<i64>)
    ensures
        bet == accepted_bet(parsed, max_bet),
{
    match parsed {
        Some(bet) => if bet > 0 && bet <= max_bet {
            Some(bet)
        } else {
            None
        },
        None => None,
    }
}

/// Reads a bet from a line of input: the line is trimmed and read as a
/// number, which is accepted between 1 and `max_bet`. `None` means that the
/// entry is invalid and the player is to be asked again.
pub fn read_bet(line: &str, max_bet: i64) -> (bet: Option<i64>)
    ensures
        bet == accepted_bet(parsed_i64(trimmed(line@)), max_bet),
{
    check_bet(parse_i64(trim(line)), max_bet)
}

/// Doubling down is on offer on the first decision of a turn, the hand having
/// exactly two cards, and only with funds left beyond the bet.
pub open spec fn double_down_offered(hand_len: nat, remaining_funds: int) -> bool {
    hand_len == 2 && remaining_funds > 0
}

/// Whether doubling down is on offer to a hand, with the funds left beyond the
/// bet.
pub fn offers_double_down(player_hand: &Vec<Card>, remaining_funds: i64) -> (offered: bool)
    ensures
        offered == double_down_offered(player_hand@.len(), remaining_funds as int),
{
    player_hand.len() == 2 && remaining_funds > 0
}

/// The line that asks for a move: the moves on offer, separated by commas,
/// and a closing `>`.
pub open spec fn move_prompt_text(double_down: bool) -> Seq<char> {
    "(H)it"@ + ", "@ + "(S)tand"@ + (if double_down {
        ", "@ + "(D)ouble down"@
    } else {
        Seq::empty()
    }) + ">"@
}

/// Writes the line that asks for a move, naming doubling down only where it
/// is on offer.
pub fn move_prompt(player_hand: &Vec<Card>, remaining_funds: i64) -> (text: String)
    ensures
        text@ == move_prompt_text(
            double_down_offered(player_hand@.len(), remaining_funds as int),
        ),
{
    let mut text = String::from_str("(H)it");
    text.append(", ");
    text.append("(S)tand");
    if offers_double_down(player_hand, remaining_funds) {
        text.append(", ");
        text.append("(D)ouble down");
    }
    text.append(">");
    text
}

/// The move that a token stands for: `H`, `S`, or `D` where doubling down is
/// on offer.
pub open spec fn move_for(token: Seq<char>, double_down: bool) -> Option<Move> {
    if token == seq!['H'] {
        Some(Move::Hit)
    } else if token == seq!['S'] {
        Some(Move::Stand)
    } else if token == seq!['D'] && double_down {
        Some(Move::DoubleDown)
    } else {
        None
    }
}

/// The command that a token stands for: `C` or `Q`.
pub open spec fn command_for(token: Seq<char>) -> Option<Command> {
    if token == seq!['C'] {
        Some(Command::Continue)
    } else if token == seq!['Q'] {
        Some(Command::Quit)
    } else {
        None
    }
}

/// The single character that a token consists of, if it has exactly one.
fn single_char(token: &str) -> (letter: Option<char>)
    ensures
        match letter {
            Some(c) => token@ == seq![c],
            None => token@.len() != 1,
        },
{
    if token.unicode_len() == 1 {
        let c = token.get_char(0);
        Some(c)
    } else {
        None
    }
}

/// Tells which move a token in upper case names, among those on offer.
pub fn move_from_token(token: &str, double_down: bool) -> (choice: Option<Move>)
    ensures
        choice == move_for(token@, double_down),
{
    match single_char(token) {
        Some(c) => {
            assert(forall|d: char| seq![c] == seq![d] ==> seq![c][0] == seq![d][0]);
            if c == 'H' {
                Some(Move::Hit)
            } else if c == 'S' {
                Some(Move::Stand)
            } else if c == 'D' && double_down {
                Some(Move::DoubleDown)
            } else {
                None
            }
        },
        None => None,
    }
}

/// Tells which command a token in upper case names.
pub fn command_from_token(token: &str) -> (choice: Option<Command>)
    ensures
        choice == command_for(token@),
{
    match single_char(token) {
        Some(c) => {
            assert(forall|d: char| seq![c] == seq![d] ==> seq![c][0] == seq![d][0]);
            if c == 'C' {
                Some(Command::Continue)
            } else if c == 'Q' {
                Some(Command::Quit)
            } else {
                None
            }
        },
        None => None,
    }
}

/// Reads a move from a line of input: the line is trimmed and put in upper
/// case, and must then name a move on offer. Doubling down is on offer only to
/// a hand of two cards with funds left. `None` means that the entry is invalid
/// and the player is to be asked again.
pub fn read_move(line: &str, player_hand: &Vec<Card>, remaining_funds: i64) -> (choice: Option<
    Move,
>)
    ensures
        choice == move_for(
            uppercased(trimmed(line@)),
            double_down_offered(player_hand@.len(), remaining_funds as int),
        ),
{
    let token = to_uppercase(trim(line));
    move_from_token(token.as_str(), offers_double_down(player_hand, remaining_funds))
}

/// Reads the choice to continue or to quit from a line of input, trimmed and
/// put in upper case. `None` means that the entry is invalid and the player is
/// to be asked again.
pub fn read_command(line: &str) -> (choice: Option<Command>)
    ensures
        choice == command_for(uppercased(trimmed(line@))),
{
    let token = to_uppercase(trim(line));
    command_from_token(token.as_str())
}

/// Doubling down is never taken from an entry where it is not on offer:
/// with a hand of another size than two, or without funds left, no entry
/// stands for it.
pub proof fn lemma_double_down_only_on_offer(token: Seq<char>, hand_len: nat, remaining_funds: int)
    requires
        hand_len != 2 || remaining_funds <= 0,
    ensures
        !double_down_offered(hand_len, remaining_funds),
        move_for(token, double_down_offered(hand_len, remaining_funds)) != Some(Move::DoubleDown),
{
}

} // verus!
