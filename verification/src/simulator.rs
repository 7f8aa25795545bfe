//! The rules as the simulator plays them. They differ from [`crate::GoitaRound`]
//! in a few points: the turn check comes before the round-over check, a pass
//! does not move the turn on, a king may be placed as bottom piece only by a
//! player holding both kings or when exactly one king lies face up, every
//! refused placement reports a bare `Error::InvalidPlace`, and dealt hands
//! are taken as they are cut from the shuffled set.

use rand::rngs::StdRng;
use vstd::prelude::*;

use crate::board::{
    dir_index, dir_next, team_of, underlying, Board, BoardDirection, PieceWithFacing, PlayerAction,
    Team,
};
use crate::deal::{
    check_deal_event, copy_piece_list, cut_of, deal_event_of, ends_round, hands_make_up_set,
    shuffled_deal,
};
use crate::game::{other_team, score_after_deal};
use crate::hand::Hand;
use crate::piece::{full_set, occurrences, piece_points, Piece};
use crate::random::{entropy_seed, rng_from_seed, seeded_generator};
use crate::round::{count_facing, finish_score};
pub use crate::types::{DealEvent, GameResult, GoitaRule, HandRank, RoundResult};

verus! {

/// Why the simulator refused an action or a request.
#[derive(Debug, Clone, Copy, PartialEq, Eq, Hash, Structural)]
pub enum Error {
    /// No round has been started yet.
    GameNotStarted,
    /// The acting player is not the player whose turn it is.
    NotYourTurn,
    /// The player does not hold the pieces they tried to place.
    PieceNotInHand,
    /// The placement breaks a placement rule.
    InvalidPlace,
    /// Passing is not allowed now.
    InvalidPass,
    /// The round is over; no more actions are taken in it.
    RoundIsOver,
    /// The game is over; no more actions are taken and no rounds are started.
    GameIsOver,
}

/// What applying an action did, as the simulator reports it.
#[derive(Debug, Clone, Copy, PartialEq, Eq, Hash, Structural)]
pub enum ApplyResult {
    /// The round goes on.
    Continuing,
    /// The round is over, with this result, and the game goes on.
    RoundOver(RoundResult),
    /// The round is over and its points brought a team to the winning
    /// score: the game is over, with this result.
    GameOver(GameResult),
}

/// The first player of a team: North for North-South, East for East-West.
pub open spec fn team_first_player(t: Team) -> BoardDirection {
    match t {
        Team::NorthSouth => BoardDirection::North,
        Team::EastWest => BoardDirection::East,
    }
}

/// Returns the first player of `team`: North for North-South, East for
/// East-West.
pub fn first_player(team: Team) -> (d: BoardDirection)
    ensures
        d == team_first_player(team),
{
    match team {
        Team::NorthSouth => BoardDirection::North,
        Team::EastWest => BoardDirection::East,
    }
}

/// Whether `res` is the result of an action that failed with `err`, or, when
/// `err` is `None`, that succeeded and finished the round as `fin` says.
pub open spec fn reports(
    res: Result<ApplyResult, Error>,
    err: Option<Error>,
    fin: Option<(BoardDirection, u8)>,
) -> bool {
    match err {
        Some(e) => res == Err::<ApplyResult, Error>(e),
        None => match fin {
            None => res == Ok::<ApplyResult, Error>(ApplyResult::Continuing),
            Some(wp) => res matches Ok(ApplyResult::RoundOver(r)) && r.winner() == wp.0
                && r.points() == wp.1,
        },
    }
}

/// The state of one round as the simulator plays it.
pub struct GoitaRound {
    board: Board,
    current_player: BoardDirection,
    last_place_player: Option<BoardDirection>,
    hands: [Hand; 4],
    round_is_over: bool,
}

impl GoitaRound {
    /// The board.
    pub closed spec fn board_state(self) -> Board {
        self.board
    }

    /// The four hands, in seat order North, East, South, West.
    pub closed spec fn hands_seq(self) -> Seq<Hand> {
        self.hands@
    }

    /// The player whose turn it is.
    pub closed spec fn turn(self) -> BoardDirection {
        self.current_player
    }

    /// The player who placed last, if anyone has placed yet.
    pub closed spec fn last_placer(self) -> Option<BoardDirection> {
        self.last_place_player
    }

    /// Whether the round is over.
    pub closed spec fn over(self) -> bool {
        self.round_is_over
    }

    /// The hand of the player at `d`.
    #[verifier::inline]
    pub open spec fn hand_of(self, d: BoardDirection) -> Hand {
        self.hands_seq()[dir_index(d)]
    }

    /// The pieces the player at `d` has placed, oldest first.
    #[verifier::inline]
    pub open spec fn placed(self, d: BoardDirection) -> Seq<PieceWithFacing> {
        self.board_state().placed(d)
    }

    /// The round is consistent: every player has placed an even number of
    /// pieces, at most eight, and a player with eight placed pieces has
    /// ended the round. Every round the library builds keeps this.
    #[verifier::type_invariant]
    pub closed spec fn wf(self) -> bool {
        forall|d: BoardDirection|
            {
                &&& #[trigger] self.board.placed(d).len() <= 8
                &&& self.board.placed(d).len() % 2 == 0
                &&& self.board.placed(d).len() == 8 ==> self.round_is_over
            }
    }

    /// The piece placed last.
    pub open spec fn last_piece(self) -> Option<Piece> {
        match self.last_placer() {
            Some(d) => if self.placed(d).len() > 0 {
                Some(underlying(self.placed(d).last()))
            } else {
                None
            },
            None => None,
        }
    }

    /// A king may be placed as a bottom piece by `player` when they hold both
    /// kings or exactly one king lies face up on the board.
    pub open spec fn king_allowed(self, player: BoardDirection) -> bool {
        ||| self.hand_of(player).count_of(Piece::King) == 2
        ||| count_facing(self.board_state().all_placed(), PieceWithFacing::FaceUp(Piece::King))
            == 1
    }

    /// How the top piece of a placement by `player` lies.
    pub open spec fn top_facing(self, player: BoardDirection, top: Piece) -> PieceWithFacing {
        match self.last_placer() {
            Some(l) => if player == l {
                PieceWithFacing::FaceDown(top)
            } else {
                PieceWithFacing::FaceUp(top)
            },
            None => PieceWithFacing::FaceDown(top),
        }
    }

    /// Whether `player` holds the two pieces.
    pub open spec fn holds_pair(self, player: BoardDirection, top: Piece, bottom: Piece) -> bool {
        if top == bottom {
            self.hand_of(player).count_of(top) >= 2
        } else {
            self.hand_of(player).count_of(top) >= 1 && self.hand_of(player).count_of(bottom) >= 1
        }
    }

    /// Whether a face-up top piece answers the piece placed last: a piece of
    /// the same kind other than a king, or a king, which answers anything but
    /// a king, a lance or a pawn.
    pub open spec fn answers_last(self, piece: Piece) -> bool {
        match self.last_piece() {
            None => false,
            Some(lp) => if piece == Piece::King {
                !(lp == Piece::King || lp == Piece::Lance || lp == Piece::Pawn)
            } else {
                piece == lp
            },
        }
    }

    /// Why `player` may not place `top` over `bottom` now, if they may not.
    pub open spec fn place_error(self, player: BoardDirection, top: Piece, bottom: Piece) -> Option<
        Error,
    > {
        if !self.holds_pair(player, top, bottom) {
            Some(Error::PieceNotInHand)
        } else if self.top_facing(player, top) is FaceUp && !self.answers_last(top) {
            Some(Error::InvalidPlace)
        } else if bottom == Piece::King && !self.king_allowed(player) {
            Some(Error::InvalidPlace)
        } else if self.placed(player).len() + 2 > 8 {
            Some(Error::InvalidPlace)
        } else {
            None
        }
    }

    /// The round's result if it is finished (see `crate::GoitaRound::finish`).
    pub open spec fn finish(self) -> Option<(BoardDirection, u8)> {
        match self.last_placer() {
            Some(d) => if self.placed(d).len() == 8 {
                Some((d, finish_score(self.placed(d)[6], underlying(self.placed(d)[7])) as u8))
            } else {
                None
            },
            None => None,
        }
    }

    /// Why `action` by `player` is refused, if it is: first the turn, then
    /// whether the round is over, then the action itself.
    pub open spec fn action_error(self, player: BoardDirection, action: PlayerAction) -> Option<
        Error,
    > {
        if player != self.turn() {
            Some(Error::NotYourTurn)
        } else if self.over() {
            Some(Error::RoundIsOver)
        } else {
            match action {
                PlayerAction::Pass => match self.last_placer() {
                    Some(l) => if player == l {
                        Some(Error::InvalidPass)
                    } else {
                        None
                    },
                    None => Some(Error::InvalidPass),
                },
                PlayerAction::Place { top, bottom } => self.place_error(player, top, bottom),
            }
        }
    }

    /// How an accepted `action` by `player` leaves the round.
    pub open spec fn action_finish(self, player: BoardDirection, action: PlayerAction) -> Option<
        (BoardDirection, u8),
    > {
        match action {
            PlayerAction::Pass => self.finish(),
            PlayerAction::Place { top, bottom } => if self.placed(player).len() + 2 == 8 {
                Some((player, finish_score(self.top_facing(player, top), bottom) as u8))
            } else {
                None
            },
        }
    }

    /// The state `new` is `old` after `player` took `action` successfully: a
    /// pass changes nothing (not even the turn); a placement puts the pair on
    /// the board, takes it from the hand and moves the turn clockwise; the
    /// round is over exactly when the new state is finished.
    pub open spec fn stepped(
        old: GoitaRound,
        new: GoitaRound,
        player: BoardDirection,
        action: PlayerAction,
    ) -> bool {
        &&& new.over() == (old.action_finish(player, action) is Some)
        &&& match action {
            PlayerAction::Pass => {
                &&& new.turn() == old.turn()
                &&& new.board_state() == old.board_state()
                &&& new.hands_seq() == old.hands_seq()
                &&& new.last_placer() == old.last_placer()
            },
            PlayerAction::Place { top, bottom } => {
                &&& new.turn() == dir_next(old.turn())
                &&& new.placed(player) == old.placed(player).push(old.top_facing(player, top)).push(
                    PieceWithFacing::FaceUp(bottom),
                )
                &&& forall|d: BoardDirection|
                    d != player ==> #[trigger] new.placed(d) == old.placed(d)
                &&& forall|p: Piece|
                    #[trigger] new.hand_of(player).count_of(p) == old.hand_of(player).count_of(p)
                        - (if p == top {
                        1int
                    } else {
                        0int
                    }) - (if p == bottom {
                        1int
                    } else {
                        0int
                    })
                &&& forall|d: BoardDirection|
                    d != player ==> #[trigger] new.hand_of(d) == old.hand_of(d)
                &&& new.last_placer() == Some(player)
            },
        }
    }

    /// What `shuffle_and_deal_hands` does: `before` is the round before the
    /// call, `after` the round after it, and `e` its result.
    pub open spec fn dealt(before: GoitaRound, after: GoitaRound, e: DealEvent) -> bool {
        &&& e == deal_event_of(after.hands_seq())
        &&& forall|d: BoardDirection| #[trigger] after.hand_of(d).size() == 8
        &&& hands_make_up_set(
            after.hand_of(BoardDirection::North),
            after.hand_of(BoardDirection::East),
            after.hand_of(BoardDirection::South),
            after.hand_of(BoardDirection::West),
        )
        &&& after.board_state() == before.board_state()
        &&& after.turn() == before.turn()
        &&& after.last_placer() == before.last_placer()
        &&& exists|s: Seq<Piece>|
            #[trigger] s.to_multiset() == full_set().to_multiset() && forall|
                d: BoardDirection,
                p: Piece,
            |
                #[trigger] after.hand_of(d).count_of(p) == occurrences(
                    s.subrange(8 * dir_index(d), 8 * dir_index(d) + 8),
                    p,
                )
        &&& after.over() == (before.over() || ends_round(e))
    }

    /// Creates a round in which `init_turn_player` moves first: an empty
    /// board, empty hands, nobody has placed, and the round is not over.
    pub fn new(init_turn_player: BoardDirection) -> (r: Self)
        ensures
            forall|d: BoardDirection| #[trigger] r.placed(d) == Seq::<PieceWithFacing>::empty(),
            forall|d: BoardDirection, p: Piece| #[trigger] r.hand_of(d).count_of(p) == 0,
            r.turn() == init_turn_player,
            r.last_placer() is None,
            !r.over(),
    {
        GoitaRound {
            board: Board::new(),
            current_player: init_turn_player,
            last_place_player: None,
            hands: [Hand::new(), Hand::new(), Hand::new(), Hand::new()],
            round_is_over: false,
        }
    }

    /// Shuffles the standard set with `rng` and deals eight pieces to each
    /// player (North first, then East, South, West). The deal event is
    /// determined, and a five-pawn pair of partners or a special hand ends
    /// the round at once.
    pub fn shuffle_and_deal_hands(&mut self, rng: &mut StdRng) -> (e: DealEvent)
        ensures
            Self::dealt(*old(self), *final(self), e),
    {
        proof {
            use_type_invariant(&*self);
        }
        let dealt = shuffled_deal(rng);
        let ghost s = choose|s: Seq<Piece>| s.to_multiset() == full_set().to_multiset() && cut_of(dealt@, s);
        let h0 = Hand::new_with_pieces(copy_piece_list(&dealt[0]));
        let h1 = Hand::new_with_pieces(copy_piece_list(&dealt[1]));
        let h2 = Hand::new_with_pieces(copy_piece_list(&dealt[2]));
        let h3 = Hand::new_with_pieces(copy_piece_list(&dealt[3]));
        self.hands = [h0, h1, h2, h3];
        assert(self.hands_seq()[0] == h0 && self.hands_seq()[1] == h1 && self.hands_seq()[2] == h2
            && self.hands_seq()[3] == h3);
        let deal_event = check_deal_event(&self.hands);
        match deal_event {
            DealEvent::FivePawnSameTeam { .. } | DealEvent::HandRank { .. } => {
                self.round_is_over = true;
            },
            _ => {},
        }
        assert(self.board_state() == old(self).board_state());
        assert(self.last_placer() == old(self).last_placer());
        assert(forall|d: BoardDirection| #[trigger] self.placed(d) == old(self).placed(d));
        assert forall|d: BoardDirection, p: Piece|
            #[trigger] self.hand_of(d).count_of(p) == occurrences(
                s.subrange(8 * dir_index(d), 8 * dir_index(d) + 8),
                p,
            ) by {
            assert(dealt@[dir_index(d)]@ == s.subrange(8 * dir_index(d), 8 * dir_index(d) + 8));
        }
        deal_event
    }

    /// Returns the hand of `player`.
    pub fn get_player_hand(&self, player: BoardDirection) -> (h: &Hand)
        ensures
            *h == self.hand_of(player),
    {
        &self.hands[player.index()]
    }

    /// Moves the turn to the next player clockwise.
    fn next_turn(&mut self)
        ensures
            final(self).turn() == dir_next(old(self).turn()),
            final(self).board_state() == old(self).board_state(),
            final(self).hands_seq() == old(self).hands_seq(),
            final(self).last_placer() == old(self).last_placer(),
            final(self).over() == old(self).over(),
    {
        proof {
            use_type_invariant(&*self);
        }
        self.current_player = self.current_player.next();
    }

    /// The piece placed last, or `None` if nobody has placed yet.
    fn get_last_placed_piece(&self) -> (p: Option<Piece>)
        ensures
            p == self.last_piece(),
    {
        if let Some(l) = self.last_place_player {
            let pieces = self.board.get_pieces(l);
            if pieces.len() > 0 {
                return Some(Piece::from(pieces[pieces.len() - 1]));
            }
        }
        None
    }

    /// Whether `player` may place a king as a bottom piece.
    fn can_place_king(&self, player: BoardDirection) -> (b: bool)
        ensures
            b == self.king_allowed(player),
    {
        if self.hands[player.index()].count(Piece::King) == 2 {
            return true;
        }
        let all = self.board.get_all_pieces();
        let mut n: usize = 0;
        let mut i: usize = 0;
        while i < all.len()
            invariant
                i <= all.len(),
                n <= i,
                n == count_facing(all@.take(i as int), PieceWithFacing::FaceUp(Piece::King)),
            decreases all.len() - i,
        {
            assert(all@.take(i + 1).drop_last() =~= all@.take(i as int));
            if all[i] == PieceWithFacing::FaceUp(Piece::King) {
                n = n + 1;
            }
            i = i + 1;
        }
        assert(all@.take(all.len() as int) =~= all@);
        n == 1
    }

    /// The result of the round if it is finished.
    fn check_round_over(&self) -> (r: Option<RoundResult>)
        ensures
            match self.finish() {
                None => r is None,
                Some(wp) => r matches Some(rr) && rr.winner() == wp.0 && rr.points() == wp.1,
            },
    {
        if let Some(last) = self.last_place_player {
            let pieces = self.board.get_pieces(last);
            if pieces.len() == 8 {
                let top_piece = pieces[6];
                let bottom_piece = Piece::from(pieces[7]);
                let double_up = match top_piece {
                    PieceWithFacing::FaceDown(piece) => piece == bottom_piece,
                    PieceWithFacing::FaceUp(_) => false,
                };
                let score = if double_up {
                    bottom_piece.point_value() * 2
                } else {
                    bottom_piece.point_value()
                };
                return Some(RoundResult::new(last, score));
            }
        }
        None
    }

    /// Places `top_piece` over `bottom_piece` for `player` if they hold both
    /// and the rules allow it, taking the pair from their hand and moving the
    /// turn clockwise.
    #[verifier::rlimit(40)]
    fn place_pieces(&mut self, player: BoardDirection, top_piece: Piece, bottom_piece: Piece) -> (res:
        Result<(), Error>)
        requires
            !old(self).over(),
        ensures
            res == (match old(self).place_error(player, top_piece, bottom_piece) {
                Some(e) => Err(e),
                None => Ok(()),
            }),
            res is Err ==> *final(self) == *old(self),
            res is Ok ==> {
                &&& final(self).turn() == dir_next(old(self).turn())
                &&& final(self).placed(player) == old(self).placed(player).push(
                    old(self).top_facing(player, top_piece),
                ).push(PieceWithFacing::FaceUp(bottom_piece))
                &&& forall|d: BoardDirection|
                    d != player ==> #[trigger] final(self).placed(d) == old(self).placed(d)
                &&& forall|p: Piece|
                    #[trigger] final(self).hand_of(player).count_of(p) == old(self).hand_of(
                        player,
                    ).count_of(p) - (if p == top_piece {
                        1int
                    } else {
                        0int
                    }) - (if p == bottom_piece {
                        1int
                    } else {
                        0int
                    })
                &&& forall|d: BoardDirection|
                    d != player ==> #[trigger] final(self).hand_of(d) == old(self).hand_of(d)
                &&& final(self).last_placer() == Some(player)
            },
            res is Ok ==> final(self).over() == (old(self).placed(player).len() + 2 == 8),
            res is Err ==> final(self).over() == old(self).over(),
    {
        proof {
            use_type_invariant(&*self);
        }
        let idx = player.index();
        let hand = self.hands[idx];
        if top_piece == bottom_piece {
            if hand.count(top_piece) < 2 {
                return Err(Error::PieceNotInHand);
            }
        } else if hand.count(top_piece) == 0 || hand.count(bottom_piece) == 0 {
            return Err(Error::PieceNotInHand);
        }
        let top_piece_with_face = match self.last_place_player {
            Some(last) => if player == last {
                PieceWithFacing::FaceDown(top_piece)
            } else {
                PieceWithFacing::FaceUp(top_piece)
            },
            None => PieceWithFacing::FaceDown(top_piece),
        };
        if let PieceWithFacing::FaceUp(piece) = top_piece_with_face {
            let last = self.get_last_placed_piece();
            match last {
                None => {
                    return Err(Error::InvalidPlace);
                },
                Some(last_placed_piece) => {
                    if piece == Piece::King {
                        match last_placed_piece {
                            Piece::King | Piece::Lance | Piece::Pawn => {
                                return Err(Error::InvalidPlace);
                            },
                            _ => {},
                        }
                    } else if piece != last_placed_piece {
                        return Err(Error::InvalidPlace);
                    }
                },
            }
        }
        if bottom_piece == Piece::King && !self.can_place_king(player) {
            return Err(Error::InvalidPlace);
        }
        if self.board.count_pieces(player) + 2 > 8 {
            return Err(Error::InvalidPlace);
        }
        let mut board = Board::new();
        std::mem::swap(&mut board, &mut self.board);
        board.place_pieces(player, top_piece_with_face, bottom_piece);
        if board.count_pieces(player) == 8 {
            // The pair is the player's last: the round ends with it.
            self.round_is_over = true;
        }
        self.board = board;
        let mut h = hand;
        h.remove(top_piece);
        h.remove(bottom_piece);
        self.hands[idx] = h;
        self.last_place_player = Some(player);
        self.next_turn();
        Ok(())
    }

    /// Applies `action` by `player`. Refused, with the round unchanged, when
    /// it is not the player's turn, when the round is over, when a pass comes
    /// from the player who placed last or before anyone placed, or when a
    /// placement is refused. A pass leaves the turn where it is; a placement
    /// moves it clockwise. The round ends when the player who placed has
    /// eight pieces on the board.
    pub fn action(&mut self, player: BoardDirection, action: PlayerAction) -> (res: Result<
        ApplyResult,
        Error,
    >)
        ensures
            reports(
                res,
                old(self).action_error(player, action),
                old(self).action_finish(player, action),
            ),
            res is Err ==> *final(self) == *old(self),
            res is Ok ==> Self::stepped(*old(self), *final(self), player, action),
    {
        proof {
            use_type_invariant(&*self);
        }
        let ghost before = *self;
        if player != self.current_player {
            return Err(Error::NotYourTurn);
        }
        if self.round_is_over {
            return Err(Error::RoundIsOver);
        }
        match action {
            PlayerAction::Pass => {
                match self.last_place_player {
                    Some(last) => {
                        if player == last {
                            return Err(Error::InvalidPass);
                        }
                    },
                    None => {
                        return Err(Error::InvalidPass);
                    },
                }
            },
            PlayerAction::Place { top, bottom } => {
                match self.place_pieces(player, top, bottom) {
                    Ok(_) => {},
                    Err(e) => {
                        return Err(e);
                    },
                }
                proof {
                    let after = before.placed(player).push(before.top_facing(player, top)).push(
                        PieceWithFacing::FaceUp(bottom),
                    );
                    assert(self.placed(player) == after);
                    assert(after[after.len() - 2] == before.top_facing(player, top));
                    assert(after[after.len() - 1] == PieceWithFacing::FaceUp(bottom));
                    assert(self.finish() == before.action_finish(player, action));
                }
            },
        }
        proof {
            if action is Pass {
                assert(self.finish() == before.action_finish(player, action));
                assert(before.finish() is None);
            }
        }
        let round_result = match self.check_round_over() {
            Some(r) => ApplyResult::RoundOver(r),
            None => ApplyResult::Continuing,
        };
        let ghost pre = *self;
        if let ApplyResult::RoundOver(_) = round_result {
            self.round_is_over = true;
        }
        proof {
            assert(self.hands_seq() == pre.hands_seq());
            assert(self.board_state() == pre.board_state());
            assert(forall|d: BoardDirection| #[trigger] self.placed(d) == pre.placed(d));
            assert(forall|d: BoardDirection| #[trigger] self.hand_of(d) == pre.hand_of(d));
        }
        Ok(round_result)
    }
}

/// The state of a whole game as the simulator plays it.
pub struct GoitaGame {
    game_rule: GoitaRule,
    ns_score: u32,
    ew_score: u32,
    current_round: Option<GoitaRound>,
    round_start_player: BoardDirection,
    rng: StdRng,
}

impl GoitaGame {
    /// The rule of the game.
    pub closed spec fn rule(self) -> GoitaRule {
        self.game_rule
    }

    /// The North-South score.
    pub closed spec fn ns(self) -> u32 {
        self.ns_score
    }

    /// The East-West score.
    pub closed spec fn ew(self) -> u32 {
        self.ew_score
    }

    /// The round in progress, if one has been started.
    pub closed spec fn round(self) -> Option<GoitaRound> {
        self.current_round
    }

    /// The player who starts the next round.
    pub closed spec fn start_player(self) -> BoardDirection {
        self.round_start_player
    }

    /// The generator that shuffles the next deal.
    pub closed spec fn generator(self) -> StdRng {
        self.rng
    }

    /// The score of `team`.
    pub open spec fn team_score(self, team: Team) -> u32 {
        match team {
            Team::NorthSouth => self.ns(),
            Team::EastWest => self.ew(),
        }
    }

    /// The game is over once either team has reached the winning score.
    pub open spec fn game_over(self) -> bool {
        self.ns() >= self.rule().target() || self.ew() >= self.rule().target()
    }

    /// The winning team of a finished game: North-South unless East-West
    /// has strictly more points.
    pub open spec fn leader(self) -> Team {
        if self.ns() >= self.ew() {
            Team::NorthSouth
        } else {
            Team::EastWest
        }
    }

    /// No score can pass `u32::MAX` in the next action of `player`.
    pub open spec fn turn_fits(self, player: BoardDirection, action: PlayerAction) -> bool {
        match self.round() {
            Some(r) => (!self.game_over() && r.action_error(player, action) is None
                && r.action_finish(player, action) is Some) ==> {
                let wp = r.action_finish(player, action)->0;
                self.team_score(team_of(wp.0)) + wp.1 <= u32::MAX
            },
            None => true,
        }
    }

    /// No score can pass `u32::MAX` in the next deal.
    pub open spec fn deal_fits(self) -> bool {
        !self.game_over() ==> self.ns() + 100 <= u32::MAX && self.ew() + 100 <= u32::MAX
    }

    /// Creates a game with both scores at zero and no round started, whose
    /// first round is started by `initial_round_start_player`; the deals are
    /// shuffled by a generator seeded with `seed`.
    pub fn new_with_seed(
        game_rule: GoitaRule,
        initial_round_start_player: BoardDirection,
        seed: u64,
    ) -> (g: Self)
        ensures
            g.rule() == game_rule,
            g.ns() == 0,
            g.ew() == 0,
            g.round() is None,
            g.start_player() == initial_round_start_player,
            g.generator() == seeded_generator(seed),
    {
        GoitaGame {
            game_rule,
            ns_score: 0,
            ew_score: 0,
            current_round: None,
            round_start_player: initial_round_start_player,
            rng: rng_from_seed(seed),
        }
    }

    /// Creates a game with both scores at zero whose first round is
    /// initialized (empty board and hands, `initial_round_start_player` to
    /// move) and waits to be dealt by `start_new_round`. The deals are
    /// shuffled by a generator seeded from the operating system's randomness;
    /// should the operating system refuse to supply it, the seed is 0.
    pub fn new(game_rule: GoitaRule, initial_round_start_player: BoardDirection) -> (g: Self)
        ensures
            g.rule() == game_rule,
            g.ns() == 0,
            g.ew() == 0,
            g.start_player() == initial_round_start_player,
            g.round() matches Some(r) && {
                &&& forall|d: BoardDirection| #[trigger] r.placed(d).len() == 0
                &&& forall|d: BoardDirection, p: Piece| #[trigger] r.hand_of(d).count_of(p) == 0
                &&& r.turn() == initial_round_start_player
                &&& r.last_placer() is None
                &&& !r.over()
            },
            exists|seed: u64| g.generator() == seeded_generator(seed),
    {
        let seed = match entropy_seed() {
            Some(s) => s,
            None => 0,
        };
        let mut game = Self::new_with_seed(game_rule, initial_round_start_player, seed);
        game.current_round = Some(GoitaRound::new(initial_round_start_player));
        game
    }

    /// Starts a new round unless the game is over (`Error::GameIsOver`, with
    /// the game unchanged); the set is shuffled and dealt, and the deal event
    /// is returned and scored as in [`crate::GoitaGame::start_new_round`].
    pub fn start_new_round(&mut self) -> (res: Result<DealEvent, Error>)
        requires
            old(self).deal_fits(),
        ensures
            old(self).game_over() ==> res == Err::<DealEvent, Error>(Error::GameIsOver),
            old(self).game_over() ==> *final(self) == *old(self),
            !old(self).game_over() ==> (res matches Ok(e) && final(self).round() matches Some(r)
                && {
                &&& r.turn() == old(self).start_player()
                &&& r.last_placer() is None
                &&& forall|d: BoardDirection| #[trigger] r.placed(d).len() == 0
                &&& forall|d: BoardDirection| #[trigger] r.hand_of(d).size() == 8
                &&& hands_make_up_set(
                    r.hand_of(BoardDirection::North),
                    r.hand_of(BoardDirection::East),
                    r.hand_of(BoardDirection::South),
                    r.hand_of(BoardDirection::West),
                )
                &&& e == deal_event_of(r.hands_seq())
                &&& r.over() == ends_round(e)
                &&& final(self).ns() == score_after_deal(
                    old(self).ns(),
                    Team::NorthSouth,
                    e,
                    old(self).rule().target(),
                )
                &&& final(self).ew() == score_after_deal(
                    old(self).ew(),
                    Team::EastWest,
                    e,
                    old(self).rule().target(),
                )
            }),
            final(self).rule() == old(self).rule(),
            final(self).start_player() == old(self).start_player(),
    {
        if self.check_game_over().is_some() {
            return Err(Error::GameIsOver);
        }
        let mut round = GoitaRound::new(self.round_start_player);
        let deal_event = round.shuffle_and_deal_hands(&mut self.rng);
        match deal_event {
            DealEvent::FivePawnSameTeam { team } => match team {
                Team::NorthSouth => self.ns_score = self.game_rule.winning_score(),
                Team::EastWest => self.ew_score = self.game_rule.winning_score(),
            },
            DealEvent::HandRank { player, rank } => {
                let winning_team = Team::from(player);
                let score: u32 = match rank {
                    HandRank::SixPawn { score } => score as u32,
                    HandRank::SevenPawn { score } => score as u32,
                    HandRank::EightPawn => 100,
                };
                assert(score <= 100);
                match winning_team {
                    Team::NorthSouth => self.ns_score = self.ns_score + score,
                    Team::EastWest => self.ew_score = self.ew_score + score,
                }
            },
            _ => {},
        }
        self.current_round = Some(round);
        Ok(deal_event)
    }

    /// Applies `action` by `player` to the round in progress: refused with
    /// `Error::GameIsOver` once the game is over and with
    /// `Error::GameNotStarted` before the first round, otherwise as the round
    /// decides. A finished round's points go to the winner's team; if that
    /// brings a team to the winning score the game result is returned as
    /// `ApplyResult::GameOver`, otherwise the round result is returned and
    /// the first player of the winning team starts the next round. A refused
    /// action changes nothing.
    pub fn play_turn(&mut self, player: BoardDirection, action: PlayerAction) -> (res: Result<
        ApplyResult,
        Error,
    >)
        requires
            old(self).turn_fits(player, action),
        ensures
            final(self).rule() == old(self).rule(),
            res is Err ==> *final(self) == *old(self),
            old(self).game_over() ==> res == Err::<ApplyResult, Error>(Error::GameIsOver),
            !old(self).game_over() && old(self).round() is None ==> res == Err::<
                ApplyResult,
                Error,
            >(Error::GameNotStarted),
            !old(self).game_over() && old(self).round() is Some ==> {
                let r = old(self).round()->0;
                let err = r.action_error(player, action);
                let fin = r.action_finish(player, action);
                &&& err matches Some(e) ==> res == Err::<ApplyResult, Error>(e)
                &&& err is None ==> (final(self).round() matches Some(r2) && GoitaRound::stepped(
                    r,
                    r2,
                    player,
                    action,
                ))
                &&& err is None ==> match fin {
                    None => {
                        &&& res == Ok::<ApplyResult, Error>(ApplyResult::Continuing)
                        &&& final(self).ns() == old(self).ns()
                        &&& final(self).ew() == old(self).ew()
                        &&& final(self).start_player() == old(self).start_player()
                    },
                    Some(wp) => {
                        &&& final(self).team_score(team_of(wp.0)) == old(self).team_score(
                            team_of(wp.0),
                        ) + wp.1
                        &&& final(self).team_score(other_team(team_of(wp.0)))
                            == old(self).team_score(other_team(team_of(wp.0)))
                        &&& if final(self).game_over() {
                            &&& res matches Ok(ApplyResult::GameOver(g)) && g.winner()
                                == final(self).leader() && g.ns() == final(self).ns() && g.ew()
                                == final(self).ew()
                            &&& final(self).start_player() == old(self).start_player()
                        } else {
                            &&& res matches Ok(ApplyResult::RoundOver(rr)) && rr.winner() == wp.0
                                && rr.points() == wp.1
                            &&& final(self).start_player() == team_first_player(team_of(wp.0))
                        }
                    },
                }
            },
    {
        if self.check_game_over().is_some() {
            return Err(Error::GameIsOver);
        }
        match self.current_round.take() {
            None => Err(Error::GameNotStarted),
            Some(mut round) => {
                let result = round.action(player, action);
                self.current_round = Some(round);
                match result {
                    Err(e) => Err(e),
                    Ok(applied) => {
                        if let ApplyResult::RoundOver(round_result) = applied {
                            match round_result.winning_team() {
                                Team::NorthSouth => {
                                    self.ns_score = self.ns_score + round_result.score() as u32
                                },
                                Team::EastWest => {
                                    self.ew_score = self.ew_score + round_result.score() as u32
                                },
                            }
                            if let Some(game_result) = self.check_game_over() {
                                return Ok(ApplyResult::GameOver(game_result));
                            }
                            self.round_start_player = first_player(round_result.winning_team());
                        }
                        Ok(applied)
                    },
                }
            },
        }
    }

    /// Returns the North-South score.
    pub fn ns_score(&self) -> (s: u32)
        ensures
            s == self.ns(),
    {
        self.ns_score
    }

    /// Returns the East-West score.
    pub fn ew_score(&self) -> (s: u32)
        ensures
            s == self.ew(),
    {
        self.ew_score
    }

    /// Returns the score of `team`.
    pub fn score(&self, team: Team) -> (s: u32)
        ensures
            s == self.team_score(team),
    {
        match team {
            Team::NorthSouth => self.ns_score,
            Team::EastWest => self.ew_score,
        }
    }

    /// Returns the game result if the game is over: the leading team and
    /// both scores; `None` while neither team has reached the winning score.
    pub fn check_game_over(&self) -> (r: Option<GameResult>)
        ensures
            match r {
                None => !self.game_over(),
                Some(g) => self.game_over() && g.winner() == self.leader() && g.ns() == self.ns()
                    && g.ew() == self.ew(),
            },
    {
        if self.ns_score >= self.game_rule.winning_score() || self.ew_score
            >= self.game_rule.winning_score() {
            let winning_team = if self.ns_score >= self.ew_score {
                Team::NorthSouth
            } else {
                Team::EastWest
            };
            Some(GameResult::new(winning_team, self.ns_score, self.ew_score))
        } else {
            None
        }
    }

    /// Returns the hand of `player` in the round in progress, or `None` if no
    /// round has been started.
    pub fn player_hand(&self, player: BoardDirection) -> (h: Option<&Hand>)
        ensures
            match self.round() {
                None => h is None,
                Some(rd) => h matches Some(x) && *x == rd.hand_of(player),
            },
    {
        match &self.current_round {
            None => None,
            Some(round) => Some(round.get_player_hand(player)),
        }
    }
}

impl Default for GoitaGame {
    /// A game to 150 points whose first round North starts, seeded from the
    /// operating system's randomness.
    fn default() -> (g: Self)
        ensures
            g.rule().target() == 150,
            g.ns() == 0,
            g.ew() == 0,
            g.round() is Some,
            g.start_player() == BoardDirection::North,
    {
        GoitaGame::new(GoitaRule::default(), BoardDirection::North)
    }
}

/// A king may be placed as bottom piece, by the simulator's rules, when the
/// player holds both kings or exactly one king lies face up on the board.
pub open spec fn may_place_king(r: GoitaRound, player: BoardDirection) -> bool {
    ||| r.hand_of(player).count_of(Piece::King) == 2
    ||| count_facing(r.board_state().all_placed(), PieceWithFacing::FaceUp(Piece::King)) == 1
}

/// A face-up top piece (from a player other than the one who placed last)
/// is accepted only as an answer to the piece placed last: a piece of the
/// same kind other than a king, or a king over anything but a king, a lance
/// or a pawn. Anything else is refused with `InvalidPlace` (or
/// `PieceNotInHand` when the player lacks the pieces), and so is the whole
/// action. A pair the player holds, answering so, with a bottom piece other
/// than a king and room on the board, is accepted.
pub proof fn lemma_face_up_answer(r: GoitaRound, player: BoardDirection, t: Piece, bottom: Piece)
    requires
        r.last_placer() matches Some(l) && l != player,
    ensures
        ({
            let answers = r.last_piece() matches Some(lp) && ((t != Piece::King && t == lp) || (t
                == Piece::King && lp != Piece::King && lp != Piece::Lance && lp != Piece::Pawn));
            &&& !answers ==> r.place_error(player, t, bottom) is Some
            &&& !answers && r.holds_pair(player, t, bottom) ==> r.place_error(player, t, bottom)
                == Some(Error::InvalidPlace)
            &&& answers && r.holds_pair(player, t, bottom) && bottom != Piece::King && r.placed(
                player,
            ).len() + 2 <= 8 ==> r.place_error(player, t, bottom) is None
        }),
        r.place_error(player, t, bottom) is Some ==> r.action_error(
            player,
            PlayerAction::Place { top: t, bottom },
        ) is Some,
{
}

/// A king as bottom piece is judged as any other bottom piece the player
/// holds when they hold both kings or exactly one king lies face up;
/// otherwise it is refused with `InvalidPlace`.
pub proof fn lemma_king_bottom_rule(r: GoitaRound, player: BoardDirection, t: Piece, b: Piece)
    requires
        b != Piece::King,
        r.holds_pair(player, t, Piece::King),
        r.holds_pair(player, t, b),
    ensures
        may_place_king(r, player) ==> r.place_error(player, t, Piece::King) == r.place_error(
            player,
            t,
            b,
        ),
        !may_place_king(r, player) ==> r.place_error(player, t, Piece::King) == Some(
            Error::InvalidPlace,
        ),
{
}

/// A placement that puts a player's seventh and eighth pieces on the board
/// finishes the round, won by that player. The player scores the bottom
/// piece's points, doubled only when the top lies face down (the player
/// placed last, or nobody has placed yet) and is of the bottom piece's kind;
/// a face-up top never doubles.
pub proof fn lemma_finishing_points(r: GoitaRound, player: BoardDirection, top: Piece, bottom: Piece)
    requires
        r.placed(player).len() == 6,
    ensures
        r.action_finish(player, PlayerAction::Place { top, bottom }) == Some(
            (
                player,
                (if (r.last_placer() is None || r.last_placer() == Some(player)) && top == bottom {
                    2 * piece_points(bottom)
                } else {
                    piece_points(bottom)
                }) as u8,
            ),
        ),
{
}

/// A deal that gives two partners five pawns each, or one player six pawns
/// or more, ends the round at once: the round is over and refuses every
/// action of the player to move with `RoundIsOver` (others with
/// `NotYourTurn`). Any other deal leaves a round that was going on going on.
pub proof fn lemma_deal_ends_round(before: GoitaRound, after: GoitaRound, e: DealEvent)
    requires
        GoitaRound::dealt(before, after, e),
    ensures
        (e is FivePawnSameTeam || e is HandRank) ==> after.over(),
        (e is FivePawnSameTeam || e is HandRank) ==> forall|a: PlayerAction|
            #[trigger] after.action_error(after.turn(), a) == Some(Error::RoundIsOver),
        !(e is FivePawnSameTeam || e is HandRank) && !before.over() ==> !after.over(),
{
}

/// A placement by the player to move, in a round going on, is refused with
/// `PieceNotInHand` exactly when the player lacks one of the two pieces (or,
/// for two pieces of one kind, holds fewer than two of it).
pub proof fn lemma_pieces_must_be_held(r: GoitaRound, player: BoardDirection, t: Piece, b: Piece)
    requires
        !r.over(),
        player == r.turn(),
    ensures
        r.action_error(player, PlayerAction::Place { top: t, bottom: b }) == Some(
            Error::PieceNotInHand,
        ) <==> if t == b {
            r.hand_of(player).count_of(t) < 2
        } else {
            r.hand_of(player).count_of(t) == 0 || r.hand_of(player).count_of(b) == 0
        },
{
}

/// An accepted placement puts the top piece on the player's row (face down
/// when the player placed last or nobody has placed yet, face up
/// otherwise), then the bottom piece face up; takes both pieces from the
/// player's hand; and makes the player the last to place. Nothing else on
/// the board or in the other hands changes.
pub proof fn lemma_placement_step(
    before: GoitaRound,
    after: GoitaRound,
    player: BoardDirection,
    t: Piece,
    b: Piece,
)
    requires
        GoitaRound::stepped(before, after, player, PlayerAction::Place { top: t, bottom: b }),
    ensures
        after.placed(player) == before.placed(player) + seq![
            if before.last_placer() is None || before.last_placer() == Some(player) {
                PieceWithFacing::FaceDown(t)
            } else {
                PieceWithFacing::FaceUp(t)
            },
            PieceWithFacing::FaceUp(b),
        ],
        forall|d: BoardDirection| d != player ==> #[trigger] after.placed(d) == before.placed(d),
        forall|d: BoardDirection| d != player ==> #[trigger] after.hand_of(d) == before.hand_of(d),
        forall|p: Piece|
            #[trigger] after.hand_of(player).count_of(p) + (if p == t {
                1int
            } else {
                0int
            }) + (if p == b {
                1int
            } else {
                0int
            }) == before.hand_of(player).count_of(p),
        after.last_placer() == Some(player),
        dir_index(after.turn()) == (dir_index(before.turn()) + 1) % 4,
{
    assert(after.placed(player) =~= before.placed(player) + seq![
        before.top_facing(player, t),
        PieceWithFacing::FaceUp(b),
    ]);
}

/// Turn order and passing, as the simulator plays them. An action by anyone
/// but the player to move is refused with `NotYourTurn`, before anything
/// else. The player to move may pass, in a round going on, exactly when
/// someone has placed and it was someone else; otherwise the pass is refused
/// with `InvalidPass`. An accepted pass changes nothing, not even whose turn
/// it is.
pub proof fn lemma_turn_and_pass(
    r: GoitaRound,
    after: GoitaRound,
    player: BoardDirection,
    a: PlayerAction,
)
    ensures
        player != r.turn() ==> r.action_error(player, a) == Some(Error::NotYourTurn),
        !r.over() && player == r.turn() ==> r.action_error(player, PlayerAction::Pass) == if r.last_placer() is None
            || r.last_placer() == Some(player) {
            Some(Error::InvalidPass)
        } else {
            None
        },
        GoitaRound::stepped(r, after, player, PlayerAction::Pass) ==> {
            &&& after.board_state() == r.board_state()
            &&& forall|d: BoardDirection| #[trigger] after.hand_of(d) == r.hand_of(d)
            &&& after.last_placer() == r.last_placer()
            &&& after.turn() == r.turn()
        },
{
}

/// The first player of a team belongs to that team and sits before their
/// partner in seat order (North, East, South, West).
pub proof fn lemma_team_first_player(t: Team)
    ensures
        team_of(team_first_player(t)) == t,
        forall|d: BoardDirection|
            team_of(d) == t ==> dir_index(team_first_player(t)) <= #[trigger] dir_index(d),
{
}

/// The team reported as winner of a finished game has at least as many
/// points as the other team, and more unless the scores are tied, in which
/// case North-South is reported.
pub proof fn lemma_leader_has_most(g: GoitaGame)
    ensures
        g.team_score(g.leader()) >= g.team_score(other_team(g.leader())),
        g.ns() == g.ew() ==> g.leader() == Team::NorthSouth,
        g.ns() != g.ew() ==> g.team_score(g.leader()) > g.team_score(other_team(g.leader())),
{
}

/// A game is determined by its rule, its two scores, its round, the player
/// who starts the next round and its generator: two games that agree on these
/// are the same game. So `new_with_seed` called twice with the same
/// arguments gives the same game.
pub proof fn lemma_game_determined(g1: GoitaGame, g2: GoitaGame)
    requires
        g1.rule() == g2.rule(),
        g1.ns() == g2.ns(),
        g1.ew() == g2.ew(),
        g1.round() == g2.round(),
        g1.start_player() == g2.start_player(),
        g1.generator() == g2.generator(),
    ensures
        g1 == g2,
{
}

} // verus!
