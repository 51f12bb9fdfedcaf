//! Rules engine for a turn-based area-control board game for two to five
//! players: board state, action validation and application, and scoring.
use vstd::prelude::*;

pub mod bag;
pub mod board;
pub mod board_space;
pub mod constants;
mod random;

pub use bag::Bag;
pub use board::Board;
pub use board_space::BoardSpace;

verus! {

/// One of the three competing factions.
#[derive(Clone, Copy, Debug, PartialEq, Eq, Structural, Hash)]
pub enum Crew {
    Rogues,
    Bullies,
    Goons,
}

/// Why an action or a new game was refused.
#[derive(Clone, Copy, Debug, PartialEq, Eq, Structural, Hash)]
pub enum Reason {
    BadPlayerCount,
    CannotMarchFromTo,
    CannotRemoveFromAttackingFaction,
    MustRemoveWhenAttacking,
    NegotiationInProgress,
    InsufficientPieces,
}

/// A location on the board. The first three are the home bases of the
/// rogues, the goons and the bullies; the other eight are neutral.
#[derive(Clone, Copy, Debug, PartialEq, Eq, Structural, Hash)]
pub enum Zone {
    Red,
    Green,
    Blue,
    Orange,
    Yellow,
    Cyan,
    Magenta,
    Purple,
    White,
    Black,
    Gray,
}

/// A seat at the table, in turn order.
#[derive(Clone, Copy, Debug, PartialEq, Eq, Structural, Hash)]
pub enum Player {
    Alpha,
    Beta,
    Gamma,
    Delta,
    Epsilon,
}

impl Player {
    /// Position of the seat in turn order, from 0.
    pub open spec fn seat(self) -> int {
        match self {
            Player::Alpha => 0,
            Player::Beta => 1,
            Player::Gamma => 2,
            Player::Delta => 3,
            Player::Epsilon => 4,
        }
    }

    /// The seat at position `i` in turn order.
    pub open spec fn at(i: int) -> Player {
        if i <= 0 {
            Player::Alpha
        } else if i == 1 {
            Player::Beta
        } else if i == 2 {
            Player::Gamma
        } else if i == 3 {
            Player::Delta
        } else {
            Player::Epsilon
        }
    }

    /// The seat at position `i` in turn order.
    pub fn nth(i: usize) -> (r: Player)
        requires
            i < 5,
        ensures
            r == Player::at(i as int),
            r.seat() == i,
    {
        match i {
            0 => Player::Alpha,
            1 => Player::Beta,
            2 => Player::Gamma,
            3 => Player::Delta,
            _ => Player::Epsilon,
        }
    }
}

/// What the player whose turn it is does.
#[derive(Clone, Copy, Debug, PartialEq, Eq, Structural, Hash)]
pub enum Action {
    /// Play a piece of the crew from hand into the zone.
    Recruit(Crew, Zone),
    /// Spend a piece of the crew from hand to move that many pieces of the
    /// crew from the first zone to the second.
    March(Crew, Zone, Zone, u8),
    /// Spend a piece of the crew from hand to remove that many rogues,
    /// bullies and goons from the zone.
    Battle(Crew, Zone, u8, u8, u8),
    /// Draw a piece from the bag into hand.
    StartNegotiation,
    /// Return a piece of the crew from hand to the bag.
    EndNegotiation(Crew),
}

/// A refused action, with the reason.
#[derive(Clone, Copy, Debug, PartialEq, Eq, Structural, Hash)]
pub struct Error {
    pub action: Action,
    pub reason: Reason,
}

impl Error {
    pub const BAD_PLAYER_COUNT: Reason = Reason::BadPlayerCount;
    pub const CANNOT_MARCH_FROM_TO: Reason = Reason::CannotMarchFromTo;
    pub const CANNOT_REMOVE_FROM_ATTACKING_FACTION: Reason = Reason::CannotRemoveFromAttackingFaction;
    pub const MUST_REMOVE_WHEN_ATTACKING: Reason = Reason::MustRemoveWhenAttacking;
    pub const NEGOTIATION_IN_PROGRESS: Reason = Reason::NegotiationInProgress;
    pub const NOT_ENOUGH_STONES_IN_ZONE: Reason = Reason::InsufficientPieces;
}

/// How a finished game ended.
#[derive(Clone, Copy, Debug, PartialEq, Eq, Structural, Hash)]
pub enum Winner {
    Draw,
    Player(Player),
}

/// Starts a new game for `num_players`, dealt from the starting pool
/// shuffled at random. Fails unless there are two to five players.
pub fn start_game(num_players: u8) -> (r: Result<Board, Reason>)
    ensures
        r is Ok <==> 2 <= num_players <= 5,
        r is Err ==> r == Err::<Board, Reason>(Reason::BadPlayerCount),
        r matches Ok(b) ==> {
            &&& b.wf()
            &&& b.pieces() == 63
            &&& b.accounted() == 63
            &&& forall|c: Crew| #[trigger] b.crew_total(c) == 21
            &&& exists|pieces: Seq<Crew>| pieces.len() == 57 && #[trigger] b.dealt(num_players as int, pieces)
        },
{
    Board::build(num_players)
}

/// Carries out `action` for the player whose turn it is on `board`; see
/// `Board::process_action`.
pub fn take_turn(board: Board, action: Action) -> (r: TurnResult)
    requires
        board.wf(),
    ensures
        r.0.wf(),
        exists|drawn: Crew| #[trigger] board.successor(action, drawn) == r.0 && (board.refusal(action) is None
            && action is StartNegotiation ==> board.bag_tally().count(drawn) > 0),
        board.refusal(action) matches Some(reason) ==> r.1 == Err::<Option<Winner>, Error>(
            Error { action, reason },
        ),
        board.refusal(action) is None ==> (r.1 matches Ok(v) && r.0.reports(v)),
{
    board.process_action(action)
}

/// The board after an action, and what the action came to: the winner once
/// the game is over, or why the action was refused.
#[derive(Clone, Copy, Debug)]
pub struct TurnResult(pub Board, pub Result<Option<Winner>, Error>);

} // verus!
