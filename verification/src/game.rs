use rand::rngs::StdRng;
use vstd::prelude::*;

use crate::board::{team_of, BoardDirection, PieceWithFacing, PlayerAction, Team};
use crate::piece::Piece;
use crate::random::{entropy_seed, rng_from_seed, seeded_generator};
use crate::deal::{ends_round, hands_make_up_set};
use crate::round::{reports, GoitaRound};
use crate::types::{
    ApplyResult, DealEvent, Error, GameResult, GoitaRule, HandRank, RoundResult, rank_points,
};

verus! {

/// The state of a whole game: the rule, both teams' scores, the round in
/// progress, who starts the next round, and the generator that shuffles the
/// deals.
#[derive(Debug)]
pub struct GoitaGame {
    game_rule: GoitaRule,
    ns_score: u32,
    ew_score: u32,
    current_round: Option<GoitaRound>,
    round_start_player: BoardDirection,
    rng: StdRng,
}

/// A team's score after a deal event: a five-pawn pair of partners sets
/// their score to the winning score; a special hand adds its points to its
/// holder's team; other events change nothing.
pub open spec fn score_after_deal(score: u32, team: Team, e: DealEvent, target: u32) -> int {
    match e {
        DealEvent::FivePawnSameTeam { team: t } => if t == team {
            target as int
        } else {
            score as int
        },
        DealEvent::HandRank { player, rank } => if team_of(player) == team {
            score + rank_points(rank)
        } else {
            score as int
        },
        _ => score as int,
    }
}

/// The other team.
pub open spec fn other_team(t: Team) -> Team {
    match t {
        Team::NorthSouth => Team::EastWest,
        Team::EastWest => Team::NorthSouth,
    }
}

impl GoitaGame {
    /// The rule of the game.
    pub closed spec fn rule(self) -> GoitaRule {
        self.game_rule
    }

    /// The North-South score.
    pub closed spec fn ns(self) -> u32 {
        self.ns_score
    }

    /// The East-West score.
    pub closed spec fn ew(self) -> u32 {
        self.ew_score
    }

    /// The round in progress, if one has been started.
    pub closed spec fn round(self) -> Option<GoitaRound> {
        self.current_round
    }

    /// The player who starts the next round.
    pub closed spec fn start_player(self) -> BoardDirection {
        self.round_start_player
    }

    /// The generator that shuffles the next deal.
    pub closed spec fn generator(self) -> StdRng {
        self.rng
    }

    /// The score of `team`.
    pub open spec fn team_score(self, team: Team) -> u32 {
        match team {
            Team::NorthSouth => self.ns(),
            Team::EastWest => self.ew(),
        }
    }

    /// The game is over once either team has reached the winning score.
    pub open spec fn game_over(self) -> bool {
        self.ns() >= self.rule().target() || self.ew() >= self.rule().target()
    }

    /// The winning team of a finished game: North-South unless East-West
    /// has strictly more points.
    pub open spec fn leader(self) -> Team {
        if self.ns() >= self.ew() {
            Team::NorthSouth
        } else {
            Team::EastWest
        }
    }

    /// No score can pass `u32::MAX` in the next action of `player`: if the
    /// action finishes the round, the winner's team score plus the round's
    /// points fits.
    pub open spec fn turn_fits(self, player: BoardDirection, action: PlayerAction) -> bool {
        match self.round() {
            Some(r) => (!self.game_over() && r.action_error(player, action) is None
                && r.action_finish(player, action) is Some) ==> {
                let wp = r.action_finish(player, action)->0;
                self.team_score(team_of(wp.0)) + wp.1 <= u32::MAX
            },
            None => true,
        }
    }

    /// No score can pass `u32::MAX` in the next deal: a special hand is worth
    /// at most 100 points.
    pub open spec fn deal_fits(self) -> bool {
        !self.game_over() ==> self.ns() + 100 <= u32::MAX && self.ew() + 100 <= u32::MAX
    }

    /// What `start_new_round` does: `before` is the game before the call,
    /// `after` the game after it, and `res` its result.
    pub open spec fn started(before: Self, after: Self, res: Result<DealEvent, Error>) -> bool {
        &&& after.rule() == before.rule()
        &&& after.start_player() == before.start_player()
        &&& before.game_over() ==> res == Err::<DealEvent, Error>(Error::GameIsOver)
        &&& before.game_over() ==> after == before
        &&& !before.game_over() ==> (res matches Ok(e) && after.round() matches Some(r) && {
            &&& r.turn() == before.start_player()
            &&& r.last_placer() is None
            &&& forall|d: BoardDirection| #[trigger] r.placed(d).len() == 0
            &&& forall|d: BoardDirection| #[trigger] r.hand_of(d).size() == 8
            &&& hands_make_up_set(
                r.hand_of(BoardDirection::North),
                r.hand_of(BoardDirection::East),
                r.hand_of(BoardDirection::South),
                r.hand_of(BoardDirection::West),
            )
            &&& e == r.deal_event()
            &&& r.over() == ends_round(e)
            &&& after.ns() == score_after_deal(
                before.ns(),
                Team::NorthSouth,
                e,
                before.rule().target(),
            )
            &&& after.ew() == score_after_deal(
                before.ew(),
                Team::EastWest,
                e,
                before.rule().target(),
            )
        })
    }

    /// What `play_turn(player, action)` does: `before` is the game before
    /// the call, `after` the game after it, and `res` its result.
    pub open spec fn played(
        before: Self,
        after: Self,
        player: BoardDirection,
        action: PlayerAction,
        res: Result<ApplyResult, Error>,
    ) -> bool {
        &&& after.rule() == before.rule()
        &&& res is Err ==> after == before
        &&& before.game_over() ==> res == Err::<ApplyResult, Error>(Error::GameIsOver)
        &&& !before.game_over() && before.round() is None ==> res == Err::<ApplyResult, Error>(
            Error::GameNotStarted,
        )
        &&& !before.game_over() && before.round() is Some ==> {
            let r = before.round()->0;
            let fin = r.action_finish(player, action);
            &&& reports(res, r.action_error(player, action), fin)
            &&& res is Ok ==> (after.round() matches Some(r2) && GoitaRound::stepped(
                r,
                r2,
                player,
                action,
            ))
            &&& res is Ok ==> match fin {
                Some(wp) => {
                    &&& after.team_score(team_of(wp.0)) == before.team_score(team_of(wp.0))
                        + wp.1
                    &&& after.team_score(other_team(team_of(wp.0))) == before.team_score(
                        other_team(team_of(wp.0)),
                    )
                    &&& after.start_player() == wp.0
                },
                None => {
                    &&& after.ns() == before.ns()
                    &&& after.ew() == before.ew()
                    &&& after.start_player() == before.start_player()
                },
            }
        }
    }

    /// Creates a game with both scores at zero and no round started, whose
    /// first round is started by `initial_round_start_player`; the deals are
    /// shuffled by a generator seeded with `seed`.
    pub fn new_with_seed(
        game_rule: GoitaRule,
        initial_round_start_player: BoardDirection,
        seed: u64,
    ) -> (g: Self)
        ensures
            g.rule() == game_rule,
            g.ns() == 0,
            g.ew() == 0,
            g.round() is None,
            g.start_player() == initial_round_start_player,
            g.generator() == seeded_generator(seed),
    {
        GoitaGame {
            game_rule,
            ns_score: 0,
            ew_score: 0,
            current_round: None,
            round_start_player: initial_round_start_player,
            rng: rng_from_seed(seed),
        }
    }

    /// Creates a game with both scores at zero whose first round is
    /// initialized (empty board and hands, `initial_round_start_player` to
    /// move) and waits to be dealt by `start_new_round`. The deals are
    /// shuffled by a generator seeded from the operating system's randomness;
    /// should the operating system refuse to supply it, the seed is 0.
    pub fn new(game_rule: GoitaRule, initial_round_start_player: BoardDirection) -> (g: Self)
        ensures
            g.rule() == game_rule,
            g.ns() == 0,
            g.ew() == 0,
            g.start_player() == initial_round_start_player,
            g.round() matches Some(r) && {
                &&& forall|d: BoardDirection| #[trigger] r.placed(d).len() == 0
                &&& forall|d: BoardDirection, p: Piece| #[trigger] r.hand_of(d).count_of(p) == 0
                &&& r.turn() == initial_round_start_player
                &&& r.last_placer() is None
                &&& !r.over()
            },
            exists|seed: u64| g.generator() == seeded_generator(seed),
    {
        let seed = match entropy_seed() {
            Some(s) => s,
            None => 0,
        };
        let mut game = Self::new_with_seed(game_rule, initial_round_start_player, seed);
        game.current_round = Some(GoitaRound::new(initial_round_start_player));
        game
    }

    /// Returns the game result if the game is over: the leading team and
    /// both scores; `None` while neither team has reached the winning score.
    pub fn check_game_over(&self) -> (r: Option<GameResult>)
        ensures
            match r {
                None => !self.game_over(),
                Some(g) => self.game_over() && g.winner() == self.leader() && g.ns() == self.ns()
                    && g.ew() == self.ew(),
            },
    {
        if self.ns_score >= self.game_rule.winning_score() || self.ew_score
            >= self.game_rule.winning_score() {
            let winning_team = if self.ns_score >= self.ew_score {
                Team::NorthSouth
            } else {
                Team::EastWest
            };
            Some(GameResult::new(winning_team, self.ns_score, self.ew_score))
        } else {
            None
        }
    }

    /// Returns the North-South score.
    pub fn ns_score(&self) -> (s: u32)
        ensures
            s == self.ns(),
    {
        self.ns_score
    }

    /// Returns the East-West score.
    pub fn ew_score(&self) -> (s: u32)
        ensures
            s == self.ew(),
    {
        self.ew_score
    }

    /// Returns the score of `team`.
    pub fn score(&self, team: Team) -> (s: u32)
        ensures
            s == self.team_score(team),
    {
        match team {
            Team::NorthSouth => self.ns_score,
            Team::EastWest => self.ew_score,
        }
    }

    /// Starts a new round unless the game is over (`Error::GameIsOver`, with
    /// the game unchanged). The new round is started by the player who won
    /// the previous round (at first, the initial start player); the set is
    /// shuffled and dealt, and the deal event is returned and scored: a
    /// five-pawn pair of partners sets their team's score to the winning
    /// score, and a special hand adds its points to its holder's team.
    pub fn start_new_round(&mut self) -> (res: Result<DealEvent, Error>)
        requires
            old(self).deal_fits(),
        ensures
            Self::started(*old(self), *final(self), res),
    {
        if self.check_game_over().is_some() {
            return Err(Error::GameIsOver);
        }
        let mut round = GoitaRound::new(self.round_start_player);
        let deal_event = round.shuffle_and_deal_hands(&mut self.rng);
        match deal_event {
            DealEvent::FivePawnSameTeam { team } => match team {
                Team::NorthSouth => self.ns_score = self.game_rule.winning_score(),
                Team::EastWest => self.ew_score = self.game_rule.winning_score(),
            },
            DealEvent::HandRank { player, rank } => {
                let winning_team = Team::from(player);
                let score: u32 = match rank {
                    HandRank::SixPawn { score } => score as u32,
                    HandRank::SevenPawn { score } => score as u32,
                    HandRank::EightPawn => 100,
                };
                assert(score <= 100);
                match winning_team {
                    Team::NorthSouth => self.ns_score = self.ns_score + score,
                    Team::EastWest => self.ew_score = self.ew_score + score,
                }
            },
            _ => {},
        }
        self.current_round = Some(round);
        proof {
            let r = round;
            assert(r.turn() == old(self).start_player());
            assert(r.last_placer() is None);
            assert(forall|d: BoardDirection| #[trigger] r.placed(d).len() == 0);
            assert(deal_event == r.deal_event());
            assert(r.over() == ends_round(deal_event));
            assert(self.ns() == score_after_deal(old(self).ns(), Team::NorthSouth, deal_event, old(self).rule().target()));
            assert(self.ew() == score_after_deal(old(self).ew(), Team::EastWest, deal_event, old(self).rule().target()));
        }
        Ok(deal_event)
    }

    /// Applies `action` by `player` to the round in progress. Refused with
    /// `Error::GameIsOver` once the game is over and with
    /// `Error::GameNotStarted` before the first round; otherwise the round
    /// decides (see [`GoitaRound::action`]). When the action ends the round,
    /// its points go to the winner's team and the winner starts the next
    /// round. A refused action leaves the game unchanged.
    pub fn play_turn(&mut self, player: BoardDirection, action: PlayerAction) -> (res: Result<
        ApplyResult,
        Error,
    >)
        requires
            old(self).turn_fits(player, action),
        ensures
            Self::played(*old(self), *final(self), player, action, res),
    {
        if self.check_game_over().is_some() {
            return Err(Error::GameIsOver);
        }
        match self.current_round.take() {
            None => Err(Error::GameNotStarted),
            Some(mut round) => {
                let result = round.action(player, action);
                self.current_round = Some(round);
                match result {
                    Err(e) => Err(e),
                    Ok(applied) => {
                        if let ApplyResult::RoundOver(round_result) = applied {
                            match round_result.winning_team() {
                                Team::NorthSouth => {
                                    self.ns_score = self.ns_score + round_result.score() as u32
                                },
                                Team::EastWest => {
                                    self.ew_score = self.ew_score + round_result.score() as u32
                                },
                            }
                            self.round_start_player = round_result.winning_player();
                        }
                        Ok(applied)
                    },
                }
            },
        }
    }

    /// Returns the player whose turn it is, or `None` when the game is over,
    /// no round has been started, or the round is over.
    pub fn current_turn_player(&self) -> (t: Option<BoardDirection>)
        ensures
            t == (if self.game_over() {
                None
            } else {
                match self.round() {
                    None => None,
                    Some(r) => if r.over() {
                        None
                    } else {
                        Some(r.turn())
                    },
                }
            }),
    {
        if self.check_game_over().is_some() {
            return None;
        }
        match &self.current_round {
            None => None,
            Some(round) => round.current_turn_player(),
        }
    }

    /// Checks whether `player` may place `top_piece` over `bottom_piece` now:
    /// `Error::GameIsOver` once the game is over, `Error::GameNotStarted`
    /// before the first round, `Error::RoundIsOver` after the round ended,
    /// and `Error::InvalidPlace` when the placement rules refuse it.
    pub fn check_place_piece(
        &self,
        player: BoardDirection,
        top_piece: PieceWithFacing,
        bottom_piece: Piece,
    ) -> (r: Result<(), Error>)
        ensures
            r == (if self.game_over() {
                Err(Error::GameIsOver)
            } else {
                match self.round() {
                    None => Err(Error::GameNotStarted),
                    Some(rd) => if rd.over() {
                        Err(Error::RoundIsOver)
                    } else {
                        match rd.placement_check(player, top_piece, bottom_piece) {
                            Ok(_) => Ok(()),
                            Err(e) => Err(Error::InvalidPlace(e)),
                        }
                    },
                }
            }),
    {
        if self.check_game_over().is_some() {
            return Err(Error::GameIsOver);
        }
        match &self.current_round {
            Some(round) => {
                if round.round_is_over() {
                    return Err(Error::RoundIsOver);
                }
                match round.check_place_pieces(player, top_piece, bottom_piece) {
                    Ok(_) => Ok(()),
                    Err(e) => Err(Error::InvalidPlace(e)),
                }
            },
            None => Err(Error::GameNotStarted),
        }
    }

    /// Returns the pieces `player` holds in the round in progress, sorted by
    /// kind, or `None` if no round has been started.
    pub fn player_hand(&self, player: BoardDirection) -> (r: Option<Vec<Piece>>)
        ensures
            match self.round() {
                None => r is None,
                Some(rd) => r matches Some(v) && v@ == rd.hand_of(player).flat(),
            },
    {
        match &self.current_round {
            None => None,
            Some(round) => Some(round.player_hand(player).pieces()),
        }
    }

    /// Returns the pieces `player` has placed in the round in progress, oldest
    /// first, or `None` if no round has been started.
    pub fn player_board(&self, player: BoardDirection) -> (r: Option<Vec<PieceWithFacing>>)
        ensures
            match self.round() {
                None => r is None,
                Some(rd) => r matches Some(v) && v@ == rd.placed(player),
            },
    {
        match &self.current_round {
            None => None,
            Some(round) => Some(round.player_board(player)),
        }
    }

    /// Returns the piece placed last in the round in progress, or `None` if
    /// no round has been started or nobody has placed yet.
    pub fn last_placed_piece(&self) -> (p: Option<Piece>)
        ensures
            p == (match self.round() {
                None => None,
                Some(rd) => rd.last_piece(),
            }),
    {
        match &self.current_round {
            None => None,
            Some(round) => round.last_placed_piece(),
        }
    }
}

} // verus!

verus! {

impl Default for GoitaGame {
    /// A game to 150 points whose first round North starts, seeded from the
    /// operating system's randomness.
    fn default() -> (g: Self)
        ensures
            g.rule().target() == 150,
            g.ns() == 0,
            g.ew() == 0,
            g.round() is Some,
            g.start_player() == BoardDirection::North,
    {
        GoitaGame::new(GoitaRule::default(), BoardDirection::North)
    }
}

} // verus!

verus! {

/// Scores never go down: while the game is not over, scoring a deal leaves
/// every team's score at least where it was (and a finished round only adds
/// its points, as `play_turn` states).
pub proof fn lemma_deal_never_lowers_score(score: u32, team: Team, e: DealEvent, target: u32)
    requires
        score < target,
    ensures
        score_after_deal(score, team, e, target) >= score,
{
}

/// Five or more pawns in two partners' hands win the game at once: their
/// team's score becomes the winning score.
pub proof fn lemma_five_pawn_partners_win(g: GoitaGame, team: Team, e: DealEvent)
    requires
        e == (DealEvent::FivePawnSameTeam { team }),
    ensures
        score_after_deal(g.team_score(team), team, e, g.rule().target()) == g.rule().target(),
{
}

/// A turn that ends a round gives the round's points to the winner's team
/// and leaves the other team's score as it was; any other turn, refused or
/// not, leaves both scores as they were.
pub proof fn lemma_turn_scores(
    before: GoitaGame,
    after: GoitaGame,
    player: BoardDirection,
    action: PlayerAction,
    res: Result<ApplyResult, Error>,
)
    requires
        GoitaGame::played(before, after, player, action, res),
    ensures
        res matches Ok(ApplyResult::RoundOver(rr)) ==> {
            &&& after.team_score(team_of(rr.winner())) == before.team_score(team_of(rr.winner()))
                + rr.points()
            &&& after.team_score(other_team(team_of(rr.winner()))) == before.team_score(
                other_team(team_of(rr.winner())),
            )
        },
        !(res matches Ok(ApplyResult::RoundOver(_))) ==> after.ns() == before.ns() && after.ew()
            == before.ew(),
{
}

/// The player who wins a round starts the next round, once it is started.
pub proof fn lemma_round_winner_starts_next(
    before: GoitaGame,
    between: GoitaGame,
    after: GoitaGame,
    player: BoardDirection,
    action: PlayerAction,
    rr: RoundResult,
    next: Result<DealEvent, Error>,
)
    requires
        GoitaGame::played(before, between, player, action, Ok(ApplyResult::RoundOver(rr))),
        GoitaGame::started(between, after, next),
    ensures
        next is Ok ==> (after.round() matches Some(r) && r.turn() == rr.winner()),
{
}

/// A game is determined by its rule, its two scores, its round, the player
/// who starts the next round and its generator: two games that agree on these
/// are the same game. So `new_with_seed` called twice with the same
/// arguments gives the same game.
pub proof fn lemma_game_determined(g1: GoitaGame, g2: GoitaGame)
    requires
        g1.rule() == g2.rule(),
        g1.ns() == g2.ns(),
        g1.ew() == g2.ew(),
        g1.round() == g2.round(),
        g1.start_player() == g2.start_player(),
        g1.generator() == g2.generator(),
    ensures
        g1 == g2,
{
}

/// Scoring the deal of a new round. Five pawns in each of two partners'
/// hands bring their team to the winning score; a special hand adds its
/// points (its score, or 100 for eight pawns) to its holder's team; the
/// other team's score stays, and no other deal changes a score. Either of
/// those two deals ends the new round at once; any other leaves it going on.
pub proof fn lemma_new_round_deal(before: GoitaGame, after: GoitaGame, e: DealEvent, team: Team)
    requires
        GoitaGame::started(before, after, Ok(e)),
    ensures
        e == (DealEvent::FivePawnSameTeam { team }) ==> after.team_score(team)
            == before.rule().target() && after.team_score(other_team(team)) == before.team_score(
            other_team(team),
        ),
        e matches DealEvent::HandRank { player, rank } ==> {
            &&& after.team_score(team_of(player)) == before.team_score(team_of(player)) + (
            match rank {
                HandRank::SixPawn { score } => score as int,
                HandRank::SevenPawn { score } => score as int,
                HandRank::EightPawn => 100int,
            })
            &&& after.team_score(other_team(team_of(player))) == before.team_score(
                other_team(team_of(player)),
            )
        },
        !(e is FivePawnSameTeam || e is HandRank) ==> after.ns() == before.ns() && after.ew()
            == before.ew(),
        (e is FivePawnSameTeam || e is HandRank) ==> (after.round() matches Some(r) && r.over()),
        !(e is FivePawnSameTeam || e is HandRank) ==> (after.round() matches Some(r) && !r.over()),
{
}

/// The team reported as winner of a finished game has at least as many
/// points as the other team, and more unless the scores are tied, in which
/// case North-South is reported.
pub proof fn lemma_leader_has_most(g: GoitaGame)
    ensures
        g.team_score(g.leader()) >= g.team_score(other_team(g.leader())),
        g.ns() == g.ew() ==> g.leader() == Team::NorthSouth,
        g.ns() != g.ew() ==> g.team_score(g.leader()) > g.team_score(other_team(g.leader())),
{
}

} // verus!
