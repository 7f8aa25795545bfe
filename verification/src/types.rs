use vstd::prelude::*;

use crate::board::{team_of, BoardDirection, Team};
use crate::piece::Piece;

verus! {

/// Why an action or a request was refused.
#[derive(Debug, Clone, Copy, PartialEq, Eq, Hash, Structural)]
pub enum Error {
    /// The dealt hands are not four hands of eight pieces that together make
    /// up the standard set.
    InvalidHand,
    /// No round has been started yet.
    GameNotStarted,
    /// The acting player is not the player whose turn it is.
    NotYourTurn,
    /// The player does not hold the pieces they tried to place.
    PieceNotInHand,
    /// The placement breaks a placement rule.
    InvalidPlace(InvalidPlaceError),
    /// Passing is not allowed now.
    InvalidPass,
    /// The round is over; no more actions are taken in it.
    RoundIsOver,
    /// The game is over; no more actions are taken and no rounds are started.
    GameIsOver,
}

/// Why a placement breaks a placement rule.
#[derive(Debug, Clone, Copy, PartialEq, Eq, Hash, Structural)]
pub enum InvalidPlaceError {
    /// A face-up piece cannot be placed in this position.
    FaceUpNotAllowed,
    /// A face-down piece cannot be placed in this position.
    FaceDownNotAllowed,
    /// The face-up piece does not answer the piece placed last.
    PieceMismatch { expected: Piece, actual: Piece },
    /// A king was placed where a king may not be placed.
    InvalidKingPlacement,
}

/// A special hand, checked right after the deal.
#[derive(Debug, Clone, Copy, PartialEq, Eq, Hash, Structural)]
pub enum HandRank {
    /// Six pawns; the score depends on the two other pieces.
    SixPawn { score: u8 },
    /// Seven pawns; the score is twice the value of the other piece.
    SevenPawn { score: u8 },
    /// Eight pawns; always worth 100 points.
    EightPawn,
}

/// What the deal turned out to be.
#[derive(Debug, Clone, Copy, PartialEq, Eq, Hash, Structural)]
pub enum DealEvent {
    /// One player holds five or more pawns.
    FivePawn { player: BoardDirection },
    /// Two partners both hold five or more pawns.
    FivePawnSameTeam { team: Team },
    /// Two players of different teams both hold five or more pawns.
    FivePawnBothTeams,
    /// A player holds a special hand.
    HandRank { player: BoardDirection, rank: HandRank },
    /// Nothing special.
    Normal,
}

/// The points a special hand is worth: its own score, or 100 for eight pawns.
pub open spec fn rank_points(rank: HandRank) -> nat {
    match rank {
        HandRank::SixPawn { score } => score as nat,
        HandRank::SevenPawn { score } => score as nat,
        HandRank::EightPawn => 100,
    }
}

/// The result of a finished round.
#[derive(Debug, Clone, Copy, PartialEq, Eq, Hash, Structural)]
pub struct RoundResult {
    winning_player: BoardDirection,
    score: u8,
}

impl RoundResult {
    /// The player who finished the round.
    pub closed spec fn winner(self) -> BoardDirection {
        self.winning_player
    }

    /// The points the round is worth.
    pub closed spec fn points(self) -> u8 {
        self.score
    }

    /// Two round results agree when their winners and points agree.
    pub proof fn lemma_ext(a: RoundResult, b: RoundResult)
        requires
            a.winner() == b.winner(),
            a.points() == b.points(),
        ensures
            a == b,
    {
    }

    /// Creates a round result for the given winning player and score.
    pub fn new(winning_player: BoardDirection, score: u8) -> (r: Self)
        ensures
            r.winner() == winning_player,
            r.points() == score,
    {
        RoundResult { winning_player, score }
    }

    /// Returns the team of the winning player.
    pub fn winning_team(&self) -> (t: Team)
        ensures
            t == team_of(self.winner()),
    {
        Team::from(self.winning_player)
    }

    /// Returns the player who placed the last pieces of the round.
    pub fn winning_player(&self) -> (d: BoardDirection)
        ensures
            d == self.winner(),
    {
        self.winning_player
    }

    /// Returns the points the round is worth.
    pub fn score(&self) -> (s: u8)
        ensures
            s == self.points(),
    {
        self.score
    }
}

/// The result of a finished game: the winning team and both final scores.
#[derive(Debug, Clone, Copy, PartialEq, Eq, Hash, Structural)]
pub struct GameResult {
    winning_team: Team,
    north_south_score: u32,
    east_west_score: u32,
}

impl GameResult {
    /// The winning team.
    pub closed spec fn winner(self) -> Team {
        self.winning_team
    }

    /// The North-South score.
    pub closed spec fn ns(self) -> u32 {
        self.north_south_score
    }

    /// The East-West score.
    pub closed spec fn ew(self) -> u32 {
        self.east_west_score
    }

    /// Two game results agree when their winners and scores agree.
    pub proof fn lemma_ext(a: GameResult, b: GameResult)
        requires
            a.winner() == b.winner(),
            a.ns() == b.ns(),
            a.ew() == b.ew(),
        ensures
            a == b,
    {
    }

    /// Creates a game result from the winning team and both final scores.
    pub fn new(winning_team: Team, north_south_score: u32, east_west_score: u32) -> (r: Self)
        ensures
            r.winner() == winning_team,
            r.ns() == north_south_score,
            r.ew() == east_west_score,
    {
        GameResult { winning_team, north_south_score, east_west_score }
    }

    /// Returns the winning team.
    pub fn winning_team(&self) -> (t: &Team)
        ensures
            *t == self.winner(),
    {
        &self.winning_team
    }

    /// Returns the final North-South score.
    pub fn north_south_score(&self) -> (s: u32)
        ensures
            s == self.ns(),
    {
        self.north_south_score
    }

    /// Returns the final East-West score.
    pub fn east_west_score(&self) -> (s: u32)
        ensures
            s == self.ew(),
    {
        self.east_west_score
    }

    /// Returns the final score of `team`.
    pub fn score(&self, team: Team) -> (s: u32)
        ensures
            s == (match team {
                Team::NorthSouth => self.ns(),
                Team::EastWest => self.ew(),
            }),
    {
        match team {
            Team::NorthSouth => self.north_south_score,
            Team::EastWest => self.east_west_score,
        }
    }
}

/// The rules of a game: the score a team needs to win.
#[derive(Debug, Clone, Copy, PartialEq, Eq, Hash, Structural)]
pub struct GoitaRule {
    winning_score: u32,
}

impl GoitaRule {
    /// The score a team needs to win.
    pub closed spec fn target(self) -> u32 {
        self.winning_score
    }

    /// Creates a rule with the given winning score.
    pub fn new(winning_score: u32) -> (r: Self)
        ensures
            r.target() == winning_score,
    {
        GoitaRule { winning_score }
    }

    /// Returns the score a team needs to win.
    pub fn winning_score(&self) -> (s: u32)
        ensures
            s == self.target(),
    {
        self.winning_score
    }
}

impl Default for GoitaRule {
    /// The default rule: the first team to 150 points wins.
    fn default() -> (r: Self)
        ensures
            r.target() == 150,
    {
        GoitaRule::new(150)
    }
}

/// What applying an action did to the round.
#[derive(Debug, Clone, Copy, PartialEq, Eq, Hash, Structural)]
pub enum ApplyResult {
    /// The round goes on.
    Continuing,
    /// The round is over, with this result.
    RoundOver(RoundResult),
}

} // verus!
