use rand::rngs::StdRng;
use vstd::prelude::*;

use crate::board::{
    dir_index, dir_next, underlying, Board, BoardDirection, PieceWithFacing, PlayerAction,
};
use crate::deal::{
    check_deal_event, copy_piece_list, deal_event_of, ends_round, five_seats, hands_make_up_set,
    make_up_full_set, seat_pawns, shuffled_deal, valid_deal, cut_of,
};
use crate::hand::{lemma_size_after_pair, Hand};
use crate::piece::{full_set, occurrences, piece_points, set_count, Piece};
use crate::types::{ApplyResult, DealEvent, Error, InvalidPlaceError, RoundResult};

verus! {

/// How many times `x` occurs in `s`.
pub open spec fn count_facing(s: Seq<PieceWithFacing>, x: PieceWithFacing) -> nat
    decreases s.len(),
{
    if s.len() == 0 {
        0
    } else {
        count_facing(s.drop_last(), x) + if s.last() == x {
            1nat
        } else {
            0nat
        }
    }
}

/// The points for finishing a round with `top` over `bottom`: the bottom
/// piece's value, doubled when the top is a face-down piece of the same kind.
pub open spec fn finish_score(top: PieceWithFacing, bottom: Piece) -> nat {
    if top == PieceWithFacing::FaceDown(bottom) {
        2 * piece_points(bottom)
    } else {
        piece_points(bottom)
    }
}

/// Whether `res` is the result of an action that failed with `err`, or, when
/// `err` is `None`, that succeeded and finished the round as `fin` says
/// (`None`: the round goes on; `Some((winner, points))`: it is over).
pub open spec fn reports(
    res: Result<ApplyResult, Error>,
    err: Option<Error>,
    fin: Option<(BoardDirection, u8)>,
) -> bool {
    match err {
        Some(e) => res == Err::<ApplyResult, Error>(e),
        None => match fin {
            None => res == Ok::<ApplyResult, Error>(ApplyResult::Continuing),
            Some(wp) => res matches Ok(ApplyResult::RoundOver(r)) && r.winner() == wp.0
                && r.points() == wp.1,
        },
    }
}

/// The state of one round: the board, the four hands, whose turn it is, who
/// placed last, and whether the round is over.
#[derive(Debug)]
pub struct GoitaRound {
    board: Board,
    current_turn_player: BoardDirection,
    last_placed_player: Option<BoardDirection>,
    hands: [Hand; 4],
    round_is_over: bool,
}

impl GoitaRound {
    /// The board.
    pub closed spec fn board_state(self) -> Board {
        self.board
    }

    /// The four hands, in seat order North, East, South, West.
    pub closed spec fn hands_seq(self) -> Seq<Hand> {
        self.hands@
    }

    /// The hand of the player at `d`.
    #[verifier::inline]
    pub open spec fn hand_of(self, d: BoardDirection) -> Hand {
        self.hands_seq()[dir_index(d)]
    }

    /// The player whose turn it is (while the round is not over).
    pub closed spec fn turn(self) -> BoardDirection {
        self.current_turn_player
    }

    /// The player who placed last, if anyone has placed yet.
    pub closed spec fn last_placer(self) -> Option<BoardDirection> {
        self.last_placed_player
    }

    /// Whether the round is over.
    pub closed spec fn over(self) -> bool {
        self.round_is_over
    }

    /// The pieces the player at `d` has placed, oldest first.
    #[verifier::inline]
    pub open spec fn placed(self, d: BoardDirection) -> Seq<PieceWithFacing> {
        self.board_state().placed(d)
    }

    /// The round is consistent: every player has placed an even number of
    /// pieces, at most eight, and a player with eight placed pieces has
    /// ended the round. Every round the library builds keeps this.
    #[verifier::type_invariant]
    pub closed spec fn wf(self) -> bool {
        forall|d: BoardDirection|
            {
                &&& #[trigger] self.board.placed(d).len() <= 8
                &&& self.board.placed(d).len() % 2 == 0
                &&& self.board.placed(d).len() == 8 ==> self.round_is_over
            }
    }

    /// The piece placed last (the bottom piece of the last placement).
    pub open spec fn last_piece(self) -> Option<Piece> {
        match self.last_placer() {
            Some(d) => if self.placed(d).len() > 0 {
                Some(underlying(self.placed(d).last()))
            } else {
                None
            },
            None => None,
        }
    }

    /// The number of face-up kings on the whole board.
    pub open spec fn face_up_kings(self) -> nat {
        count_facing(self.board_state().all_placed(), PieceWithFacing::FaceUp(Piece::King))
    }

    /// A king may be placed as a bottom piece by `player` when they hold both
    /// kings, or have already placed six pieces, or exactly one king lies face
    /// up on the board.
    pub open spec fn king_allowed(self, player: BoardDirection) -> bool {
        ||| self.hand_of(player).count_of(Piece::King) == 2
        ||| self.placed(player).len() == 6
        ||| self.face_up_kings() == 1
    }

    /// The placement rules. A face-up top piece must answer the piece placed
    /// last: a piece of the same kind other than a king, or a king, which
    /// answers anything but a king, a lance or a pawn; with nothing placed yet a face-up top is refused. A
    /// face-down top is only for the player who placed last (or the very
    /// first placement). A king as bottom piece needs `king_allowed`.
    pub open spec fn placement_check(
        self,
        player: BoardDirection,
        top: PieceWithFacing,
        bottom: Piece,
    ) -> Result<(), InvalidPlaceError> {
        let top_check: Result<(), InvalidPlaceError> = match top {
            PieceWithFacing::FaceUp(piece) => match self.last_piece() {
                None => Err(InvalidPlaceError::FaceUpNotAllowed),
                Some(lp) => if piece == Piece::King {
                    if lp == Piece::King || lp == Piece::Lance || lp == Piece::Pawn {
                        Err(InvalidPlaceError::PieceMismatch { expected: lp, actual: piece })
                    } else {
                        Ok(())
                    }
                } else if piece != lp {
                    Err(InvalidPlaceError::PieceMismatch { expected: lp, actual: piece })
                } else {
                    Ok(())
                },
            },
            PieceWithFacing::FaceDown(_) => match self.last_placer() {
                Some(l) => if player != l {
                    Err(InvalidPlaceError::FaceDownNotAllowed)
                } else {
                    Ok(())
                },
                None => Ok(()),
            },
        };
        match top_check {
            Err(e) => Err(e),
            Ok(_) => if bottom == Piece::King && !self.king_allowed(player) {
                Err(InvalidPlaceError::InvalidKingPlacement)
            } else {
                Ok(())
            },
        }
    }

    /// How the top piece of a placement by `player` lies: face down when the
    /// player placed last or nobody has placed yet, face up otherwise.
    pub open spec fn top_facing(self, player: BoardDirection, top: Piece) -> PieceWithFacing {
        match self.last_placer() {
            Some(l) => if player == l {
                PieceWithFacing::FaceDown(top)
            } else {
                PieceWithFacing::FaceUp(top)
            },
            None => PieceWithFacing::FaceDown(top),
        }
    }

    /// Whether `player` holds the two pieces (two of a kind when they are the
    /// same kind).
    pub open spec fn holds_pair(self, player: BoardDirection, top: Piece, bottom: Piece) -> bool {
        if top == bottom {
            self.hand_of(player).count_of(top) >= 2
        } else {
            self.hand_of(player).count_of(top) >= 1 && self.hand_of(player).count_of(bottom) >= 1
        }
    }

    /// Why `player` may not place `top` over `bottom` now, if they may not.
    pub open spec fn place_error(self, player: BoardDirection, top: Piece, bottom: Piece) -> Option<
        Error,
    > {
        if !self.holds_pair(player, top, bottom) {
            Some(Error::PieceNotInHand)
        } else {
            match self.placement_check(player, self.top_facing(player, top), bottom) {
                Err(e) => Some(Error::InvalidPlace(e)),
                Ok(_) => None,
            }
        }
    }

    /// The round's result if it is finished: the player who placed last has
    /// eight pieces on the board, and wins `finish_score` of their last pair.
    pub open spec fn finish(self) -> Option<(BoardDirection, u8)> {
        match self.last_placer() {
            Some(d) => if self.placed(d).len() == 8 {
                Some((d, finish_score(self.placed(d)[6], underlying(self.placed(d)[7])) as u8))
            } else {
                None
            },
            None => None,
        }
    }

    /// Why `action` by `player` is refused, if it is.
    pub open spec fn action_error(self, player: BoardDirection, action: PlayerAction) -> Option<
        Error,
    > {
        if self.over() {
            Some(Error::RoundIsOver)
        } else if player != self.turn() {
            Some(Error::NotYourTurn)
        } else {
            match action {
                PlayerAction::Pass => match self.last_placer() {
                    Some(l) => if player == l {
                        Some(Error::InvalidPass)
                    } else {
                        None
                    },
                    None => Some(Error::InvalidPass),
                },
                PlayerAction::Place { top, bottom } => self.place_error(player, top, bottom),
            }
        }
    }

    /// How an accepted `action` by `player` leaves the round: `finish` of the
    /// state after the action.
    pub open spec fn action_finish(self, player: BoardDirection, action: PlayerAction) -> Option<
        (BoardDirection, u8),
    > {
        match action {
            PlayerAction::Pass => self.finish(),
            PlayerAction::Place { top, bottom } => if self.placed(player).len() + 2 == 8 {
                Some((player, finish_score(self.top_facing(player, top), bottom) as u8))
            } else {
                None
            },
        }
    }

    /// The state `new` is `old` after `player` placed `top` over `bottom`
    /// (the top lying as `top_facing` says), before the turn moves on.
    pub open spec fn placed_pair(
        old: GoitaRound,
        new: GoitaRound,
        player: BoardDirection,
        top: Piece,
        bottom: Piece,
    ) -> bool {
        &&& new.placed(player) == old.placed(player).push(old.top_facing(player, top)).push(
            PieceWithFacing::FaceUp(bottom),
        )
        &&& forall|d: BoardDirection| d != player ==> #[trigger] new.placed(d) == old.placed(d)
        &&& forall|p: Piece|
            #[trigger] new.hand_of(player).count_of(p) == old.hand_of(player).count_of(p) - (if p
                == top {
                1int
            } else {
                0int
            }) - (if p == bottom {
                1int
            } else {
                0int
            })
        &&& forall|d: BoardDirection| d != player ==> #[trigger] new.hand_of(d) == old.hand_of(d)
        &&& new.last_placer() == Some(player)
    }

    /// What the deal is (see `deal_event_of`).
    pub open spec fn deal_event(self) -> DealEvent {
        deal_event_of(self.hands_seq())
    }

    /// The state `new` is `old` after `player` took `action` successfully: a
    /// pass changes nothing but the turn; a placement puts the pair on the
    /// board and takes it from the hand; the turn moves clockwise, and the
    /// round is over exactly when the new state is finished.
    pub open spec fn stepped(
        old: GoitaRound,
        new: GoitaRound,
        player: BoardDirection,
        action: PlayerAction,
    ) -> bool {
        &&& new.turn() == dir_next(old.turn())
        &&& new.over() == (old.action_finish(player, action) is Some)
        &&& match action {
            PlayerAction::Pass => {
                &&& new.board_state() == old.board_state()
                &&& forall|d: BoardDirection| #[trigger] new.hand_of(d) == old.hand_of(d)
                &&& new.last_placer() == old.last_placer()
            },
            PlayerAction::Place { top, bottom } => Self::placed_pair(old, new, player, top, bottom),
        }
    }

    /// What `deal_hands(hands)` does: `before` is the round before the call,
    /// `after` the round after it, and `res` its result.
    pub open spec fn dealt(
        before: GoitaRound,
        after: GoitaRound,
        hands: Seq<Vec<Piece>>,
        res: Result<DealEvent, Error>,
    ) -> bool {
        &&& !valid_deal(hands) ==> res == Err::<DealEvent, Error>(Error::InvalidHand)
        &&& !valid_deal(hands) ==> after == before
        &&& valid_deal(hands) ==> {
            &&& res == Ok::<DealEvent, Error>(after.deal_event())
            &&& forall|d: BoardDirection, p: Piece|
                #[trigger] after.hand_of(d).count_of(p) == occurrences(hands[dir_index(d)]@, p)
            &&& forall|d: BoardDirection| #[trigger] after.hand_of(d).size() == 8
            &&& after.board_state() == before.board_state()
            &&& after.turn() == before.turn()
            &&& after.last_placer() == before.last_placer()
            &&& after.over() == (before.over() || ends_round(after.deal_event()))
        }
    }

    /// Creates a round in which `init_turn_player` moves first: an empty
    /// board, empty hands, nobody has placed, and the round is not over.
    pub fn new(init_turn_player: BoardDirection) -> (r: Self)
        ensures
            forall|d: BoardDirection| #[trigger] r.placed(d) == Seq::<PieceWithFacing>::empty(),
            forall|d: BoardDirection, p: Piece| #[trigger] r.hand_of(d).count_of(p) == 0,
            r.turn() == init_turn_player,
            r.last_placer() is None,
            !r.over(),
    {
        GoitaRound {
            board: Board::new(),
            current_turn_player: init_turn_player,
            last_placed_player: None,
            hands: [Hand::new(), Hand::new(), Hand::new(), Hand::new()],
            round_is_over: false,
        }
    }

    /// Returns the hand of `player`.
    pub fn player_hand(&self, player: BoardDirection) -> (h: &Hand)
        ensures
            *h == self.hand_of(player),
    {
        &self.hands[player.index()]
    }

    /// Returns the pieces `player` has placed, oldest first.
    pub fn player_board(&self, player: BoardDirection) -> (v: Vec<PieceWithFacing>)
        ensures
            v@ == self.placed(player),
    {
        self.board.get_pieces(player)
    }

    /// Returns the player whose turn it is, or `None` once the round is over.
    pub fn current_turn_player(&self) -> (t: Option<BoardDirection>)
        ensures
            t == (if self.over() {
                None
            } else {
                Some(self.turn())
            }),
    {
        if self.round_is_over {
            None
        } else {
            Some(self.current_turn_player)
        }
    }

    /// Returns whether the round is over.
    pub fn round_is_over(&self) -> (b: bool)
        ensures
            b == self.over(),
    {
        self.round_is_over
    }

    /// Returns the player who placed last, or `None` if nobody has placed.
    pub fn last_placed_player(&self) -> (d: Option<BoardDirection>)
        ensures
            d == self.last_placer(),
    {
        self.last_placed_player
    }

    /// Returns the piece placed last (whichever way it lies), or `None` if
    /// nobody has placed yet.
    pub fn last_placed_piece(&self) -> (p: Option<Piece>)
        ensures
            p == self.last_piece(),
    {
        if let Some(l) = self.last_placed_player {
            let pieces = self.board.get_pieces(l);
            if pieces.len() > 0 {
                return Some(Piece::from(pieces[pieces.len() - 1]));
            }
        }
        None
    }

    /// Whether `player` may place a king as a bottom piece.
    fn can_place_king(&self, player: BoardDirection) -> (b: bool)
        ensures
            b == self.king_allowed(player),
    {
        if self.hands[player.index()].count(Piece::King) == 2 {
            return true;
        }
        if self.board.get_pieces(player).len() == 6 {
            return true;
        }
        let all = self.board.get_all_pieces();
        let mut n: usize = 0;
        let mut i: usize = 0;
        while i < all.len()
            invariant
                i <= all.len(),
                n <= i,
                n == count_facing(all@.take(i as int), PieceWithFacing::FaceUp(Piece::King)),
            decreases all.len() - i,
        {
            assert(all@.take(i + 1).drop_last() =~= all@.take(i as int));
            if all[i] == PieceWithFacing::FaceUp(Piece::King) {
                n = n + 1;
            }
            i = i + 1;
        }
        assert(all@.take(all.len() as int) =~= all@);
        n == 1
    }

    /// Checks whether `player` may place `top_piece_with_face` over
    /// `bottom_piece` under the placement rules (see `placement_check`).
    pub fn check_place_pieces(
        &self,
        player: BoardDirection,
        top_piece_with_face: PieceWithFacing,
        bottom_piece: Piece,
    ) -> (r: Result<(), InvalidPlaceError>)
        ensures
            r == self.placement_check(player, top_piece_with_face, bottom_piece),
    {
        match top_piece_with_face {
            PieceWithFacing::FaceUp(piece) => {
                let last = self.last_placed_piece();
                match last {
                    None => {
                        return Err(InvalidPlaceError::FaceUpNotAllowed);
                    },
                    Some(last_placed_piece) => {
                        if piece == Piece::King {
                            match last_placed_piece {
                                Piece::King | Piece::Lance | Piece::Pawn => {
                                    return Err(
                                        InvalidPlaceError::PieceMismatch {
                                            expected: last_placed_piece,
                                            actual: piece,
                                        },
                                    );
                                },
                                _ => {},
                            }
                        } else if piece != last_placed_piece {
                            return Err(
                                InvalidPlaceError::PieceMismatch {
                                    expected: last_placed_piece,
                                    actual: piece,
                                },
                            );
                        }
                    },
                }
            },
            PieceWithFacing::FaceDown(_) => {
                let acted_last = match self.last_placed_player {
                    Some(l) => l,
                    None => player,
                };
                if player != acted_last {
                    return Err(InvalidPlaceError::FaceDownNotAllowed);
                }
            },
        }
        if bottom_piece == Piece::King && !self.can_place_king(player) {
            return Err(InvalidPlaceError::InvalidKingPlacement);
        }
        Ok(())
    }

    /// Moves the turn to the next player clockwise.
    fn next_turn(&mut self)
        ensures
            final(self).turn() == dir_next(old(self).turn()),
            final(self).board_state() == old(self).board_state(),
            final(self).hands_seq() == old(self).hands_seq(),
            final(self).last_placer() == old(self).last_placer(),
            final(self).over() == old(self).over(),
    {
        proof {
            use_type_invariant(&*self);
        }
        self.current_turn_player = self.current_turn_player.next();
    }

    /// The result of the round if it is finished (see `finish`).
    fn check_round_over(&self) -> (r: Option<RoundResult>)
        ensures
            match self.finish() {
                None => r is None,
                Some(wp) => r matches Some(rr) && rr.winner() == wp.0 && rr.points() == wp.1,
            },
    {
        if let Some(last) = self.last_placed_player {
            let pieces = self.board.get_pieces(last);
            if pieces.len() == 8 {
                let top_piece = pieces[6];
                let bottom_piece = Piece::from(pieces[7]);
                let double_up = match top_piece {
                    PieceWithFacing::FaceDown(piece) => piece == bottom_piece,
                    PieceWithFacing::FaceUp(_) => false,
                };
                let score = if double_up {
                    bottom_piece.point_value() * 2
                } else {
                    bottom_piece.point_value()
                };
                return Some(RoundResult::new(last, score));
            }
        }
        None
    }

    /// Places `top_piece` over `bottom_piece` for `player` if they hold both
    /// and the placement rules allow it, taking the pair from their hand.
    #[verifier::rlimit(40)]
    fn place_pieces(&mut self, player: BoardDirection, top_piece: Piece, bottom_piece: Piece) -> (res:
        Result<(), Error>)
        requires
            !old(self).over(),
        ensures
            res == (match old(self).place_error(player, top_piece, bottom_piece) {
                Some(e) => Err(e),
                None => Ok(()),
            }),
            res is Err ==> *final(self) == *old(self),
            res is Ok ==> Self::placed_pair(*old(self), *final(self), player, top_piece, bottom_piece),
            final(self).turn() == old(self).turn(),
            res is Ok ==> final(self).over() == (old(self).placed(player).len() + 2 == 8),
    {
        proof {
            use_type_invariant(&*self);
        }
        let idx = player.index();
        let hand = self.hands[idx];
        if top_piece == bottom_piece {
            if hand.count(top_piece) < 2 {
                return Err(Error::PieceNotInHand);
            }
        } else if hand.count(top_piece) == 0 || hand.count(bottom_piece) == 0 {
            return Err(Error::PieceNotInHand);
        }
        let top_piece_with_face = match self.last_placed_player {
            Some(last) => if player == last {
                PieceWithFacing::FaceDown(top_piece)
            } else {
                PieceWithFacing::FaceUp(top_piece)
            },
            None => PieceWithFacing::FaceDown(top_piece),
        };
        if let Err(error) = self.check_place_pieces(player, top_piece_with_face, bottom_piece) {
            return Err(Error::InvalidPlace(error));
        }
        assert(self.placed(player).len() <= 6);
        let mut board = Board::new();
        std::mem::swap(&mut board, &mut self.board);
        board.place_pieces(player, top_piece_with_face, bottom_piece);
        if board.count_pieces(player) == 8 {
            // The pair is the player's last: the round ends with it.
            self.round_is_over = true;
        }
        self.board = board;
        let mut h = hand;
        h.remove(top_piece);
        h.remove(bottom_piece);
        self.hands[idx] = h;
        self.last_placed_player = Some(player);
        Ok(())
    }

    /// Applies `action` by `player`. Refused, with the round unchanged, when
    /// the round is over, when it is not the player's turn, when a pass
    /// comes from the player who placed last or before anyone placed, or when
    /// a placement is refused (see `place_error`). Otherwise the action is
    /// applied, the turn moves clockwise, and the round ends when the player
    /// who placed has eight pieces on the board.
    pub fn action(&mut self, player: BoardDirection, action: PlayerAction) -> (res: Result<
        ApplyResult,
        Error,
    >)
        ensures
            reports(
                res,
                old(self).action_error(player, action),
                old(self).action_finish(player, action),
            ),
            res is Err ==> *final(self) == *old(self),
            res is Ok ==> Self::stepped(*old(self), *final(self), player, action),
    {
        proof {
            use_type_invariant(&*self);
        }
        let ghost before = *self;
        if let Some(turn_player) = self.current_turn_player() {
            if player != turn_player {
                return Err(Error::NotYourTurn);
            }
            match action {
                PlayerAction::Pass => {
                    match self.last_placed_player {
                        Some(last) => {
                            if player == last {
                                return Err(Error::InvalidPass);
                            }
                        },
                        None => {
                            return Err(Error::InvalidPass);
                        },
                    }
                },
                PlayerAction::Place { top, bottom } => {
                    match self.place_pieces(player, top, bottom) {
                        Ok(_) => {},
                        Err(e) => {
                            return Err(e);
                        },
                    }
                    proof {
                        let after = before.placed(player).push(before.top_facing(player, top)).push(
                            PieceWithFacing::FaceUp(bottom),
                        );
                        assert(self.placed(player) == after);
                        assert(after[after.len() - 2] == before.top_facing(player, top));
                        assert(after[after.len() - 1] == PieceWithFacing::FaceUp(bottom));
                        assert(self.finish() == before.action_finish(player, action));
                    }
                },
            }
            proof {
                if action is Pass {
                    assert(self.finish() == before.action_finish(player, action));
                    assert(before.finish() is None);
                }
            }
            let round_result = match self.check_round_over() {
                Some(r) => ApplyResult::RoundOver(r),
                None => ApplyResult::Continuing,
            };
            let ghost pre = *self;
            if let ApplyResult::RoundOver(_) = round_result {
                self.round_is_over = true;
            }
            self.next_turn();
            proof {
                assert(self.hands_seq() == pre.hands_seq());
                assert(self.board_state() == pre.board_state());
            }
            Ok(round_result)
        } else {
            Err(Error::RoundIsOver)
        }
    }

    /// Deals the given hands, in seat order North, East, South, West. They
    /// are accepted when they are four hands of eight pieces that together
    /// make up the standard set (`valid_deal`); otherwise the round is left
    /// unchanged and `Error::InvalidHand` is returned. The deal event is then
    /// determined, and a five-pawn pair of partners or a special hand ends
    /// the round at once.
    pub fn deal_hands(&mut self, hands: Vec<Vec<Piece>>) -> (res: Result<DealEvent, Error>)
        ensures
            Self::dealt(*old(self), *final(self), hands@, res),
    {
        proof {
            use_type_invariant(&*self);
        }
        if hands.len() != 4 {
            return Err(Error::InvalidHand);
        }
        let mut i: usize = 0;
        while i < 4
            invariant
                i <= 4,
                hands.len() == 4,
                *self == *old(self),
                forall|j: int| 0 <= j < i ==> #[trigger] hands@[j]@.len() == 8,
            decreases 4 - i,
        {
            if hands[i].len() != 8 {
                return Err(Error::InvalidHand);
            }
            i = i + 1;
        }
        let h0 = Hand::new_with_pieces(copy_piece_list(&hands[0]));
        let h1 = Hand::new_with_pieces(copy_piece_list(&hands[1]));
        let h2 = Hand::new_with_pieces(copy_piece_list(&hands[2]));
        let h3 = Hand::new_with_pieces(copy_piece_list(&hands[3]));
        if !make_up_full_set(&h0, &h1, &h2, &h3) {
            return Err(Error::InvalidHand);
        }
        self.hands = [h0, h1, h2, h3];
        let deal_event = check_deal_event(&self.hands);
        match deal_event {
            DealEvent::FivePawnSameTeam { .. } | DealEvent::HandRank { .. } => {
                self.round_is_over = true;
            },
            _ => {},
        }
        assert(self.board_state() == old(self).board_state());
        assert(self.last_placer() == old(self).last_placer());
        assert(old(self).over() ==> self.over());
        assert(forall|d: BoardDirection| #[trigger] self.placed(d) == old(self).placed(d));
        Ok(deal_event)
    }

    /// Shuffles the standard set with `rng` and deals it: the first eight
    /// pieces to North, the next to East, then South, then West (see
    /// `deal_hands`). Which pieces each player receives depends on the
    /// generator; whatever they are, every player holds eight and together
    /// they make up the standard set.
    pub fn shuffle_and_deal_hands(&mut self, rng: &mut StdRng) -> (e: DealEvent)
        ensures
            e == final(self).deal_event(),
            forall|d: BoardDirection| #[trigger] final(self).hand_of(d).size() == 8,
            hands_make_up_set(
                final(self).hand_of(BoardDirection::North),
                final(self).hand_of(BoardDirection::East),
                final(self).hand_of(BoardDirection::South),
                final(self).hand_of(BoardDirection::West),
            ),
            final(self).board_state() == old(self).board_state(),
            final(self).turn() == old(self).turn(),
            final(self).last_placer() == old(self).last_placer(),
            exists|s: Seq<Piece>|
                #[trigger] s.to_multiset() == full_set().to_multiset() && forall|
                    d: BoardDirection,
                    p: Piece,
                |
                    #[trigger] final(self).hand_of(d).count_of(p) == occurrences(
                        s.subrange(8 * dir_index(d), 8 * dir_index(d) + 8),
                        p,
                    ),
            final(self).over() == (old(self).over() || ends_round(e)),
    {
        let hands = shuffled_deal(rng);
        let ghost dealt = hands@;
        let ghost s = choose|s: Seq<Piece>| s.to_multiset() == full_set().to_multiset() && cut_of(dealt, s);
        match self.deal_hands(hands) {
            Ok(deal_event) => {
                assert forall|d: BoardDirection, p: Piece|
                    #[trigger] self.hand_of(d).count_of(p) == occurrences(
                        s.subrange(8 * dir_index(d), 8 * dir_index(d) + 8),
                        p,
                    ) by {
                    assert(dealt[dir_index(d)]@ == s.subrange(8 * dir_index(d), 8 * dir_index(d) + 8));
                }
                deal_event
            },
            Err(_) => {
                proof {
                    assert(false);
                }
                DealEvent::Normal
            },
        }
    }
}

} // verus!

verus! {

/// How many pieces of kind `p` lie in `s`, whichever way they face.
pub open spec fn kind_count(s: Seq<PieceWithFacing>, p: Piece) -> nat
    decreases s.len(),
{
    if s.len() == 0 {
        0
    } else {
        kind_count(s.drop_last(), p) + if underlying(s.last()) == p {
            1nat
        } else {
            0nat
        }
    }
}

proof fn lemma_kind_count_concat(a: Seq<PieceWithFacing>, b: Seq<PieceWithFacing>, p: Piece)
    ensures
        kind_count(a + b, p) == kind_count(a, p) + kind_count(b, p),
    decreases b.len(),
{
    if b.len() == 0 {
        assert(a + b =~= a);
    } else {
        assert((a + b).drop_last() =~= a + b.drop_last());
        lemma_kind_count_concat(a, b.drop_last(), p);
    }
}

impl GoitaRound {
    /// How many pieces of kind `p` the round holds: in the four hands and on
    /// the board together.
    pub open spec fn pieces_in_play(self, p: Piece) -> nat {
        self.hand_of(BoardDirection::North).count_of(p) + self.hand_of(BoardDirection::East).count_of(
            p,
        ) + self.hand_of(BoardDirection::South).count_of(p) + self.hand_of(
            BoardDirection::West,
        ).count_of(p) + kind_count(self.board_state().all_placed(), p)
    }
}

/// Right after the deal, the round holds the whole standard set: every kind
/// as often as the set has it.
pub proof fn lemma_dealt_round_holds_full_set(r: GoitaRound)
    requires
        forall|d: BoardDirection| #[trigger] r.placed(d).len() == 0,
        hands_make_up_set(
            r.hand_of(BoardDirection::North),
            r.hand_of(BoardDirection::East),
            r.hand_of(BoardDirection::South),
            r.hand_of(BoardDirection::West),
        ),
    ensures
        forall|p: Piece| #[trigger] r.pieces_in_play(p) == set_count(p),
{
    assert(r.placed(BoardDirection::North).len() == 0);
    assert(r.placed(BoardDirection::East).len() == 0);
    assert(r.placed(BoardDirection::South).len() == 0);
    assert(r.placed(BoardDirection::West).len() == 0);
    assert(r.board_state().all_placed().len() == 0);
}

/// No piece is created or lost: an accepted action keeps, for every kind,
/// the number of pieces in the hands and on the board together. (A pass
/// moves nothing; a placement moves the two pieces from the hand to the
/// board.)
pub proof fn lemma_action_conserves_pieces(
    old: GoitaRound,
    new: GoitaRound,
    player: BoardDirection,
    action: PlayerAction,
)
    requires
        GoitaRound::stepped(old, new, player, action),
    ensures
        forall|p: Piece| #[trigger] new.pieces_in_play(p) == old.pieces_in_play(p),
{
    if let PlayerAction::Place { top, bottom } = action {
        let tf = old.top_facing(player, top);
        let up = PieceWithFacing::FaceUp(bottom);
        assert forall|p: Piece| #[trigger] new.pieces_in_play(p) == old.pieces_in_play(p) by {
            let n = BoardDirection::North;
            let e = BoardDirection::East;
            let s = BoardDirection::South;
            let w = BoardDirection::West;
            lemma_kind_count_concat(
                new.placed(n) + new.placed(e) + new.placed(s),
                new.placed(w),
                p,
            );
            lemma_kind_count_concat(new.placed(n) + new.placed(e), new.placed(s), p);
            lemma_kind_count_concat(new.placed(n), new.placed(e), p);
            lemma_kind_count_concat(
                old.placed(n) + old.placed(e) + old.placed(s),
                old.placed(w),
                p,
            );
            lemma_kind_count_concat(old.placed(n) + old.placed(e), old.placed(s), p);
            lemma_kind_count_concat(old.placed(n), old.placed(e), p);
            let before = old.placed(player);
            assert(new.placed(player).drop_last() == before.push(tf));
            assert(before.push(tf).drop_last() == before);
            assert(underlying(tf) == top);
            assert(new.placed(player).last() == up);
            assert(kind_count(before.push(tf), p) == kind_count(before, p) + (if top == p {
                1int
            } else {
                0int
            }));
            assert(kind_count(new.placed(player), p) == kind_count(before, p) + (if top == p {
                1int
            } else {
                0int
            }) + (if bottom == p {
                1int
            } else {
                0int
            }));
        }
    } else {
        assert forall|p: Piece| #[trigger] new.pieces_in_play(p) == old.pieces_in_play(p) by {
            assert(new.hand_of(BoardDirection::North) == old.hand_of(BoardDirection::North));
            assert(new.hand_of(BoardDirection::East) == old.hand_of(BoardDirection::East));
            assert(new.hand_of(BoardDirection::South) == old.hand_of(BoardDirection::South));
            assert(new.hand_of(BoardDirection::West) == old.hand_of(BoardDirection::West));
        }
    }
}

/// Each player keeps their pieces: an accepted action leaves, for every
/// player, the number of pieces in hand plus the number placed unchanged
/// (a placement moves two pieces from the hand to the board).
pub proof fn lemma_action_keeps_player_totals(
    old: GoitaRound,
    new: GoitaRound,
    player: BoardDirection,
    action: PlayerAction,
)
    requires
        GoitaRound::stepped(old, new, player, action),
    ensures
        forall|d: BoardDirection|
            #[trigger] new.hand_of(d).size() + new.placed(d).len() == old.hand_of(d).size()
                + old.placed(d).len(),
{
    if let PlayerAction::Place { top, bottom } = action {
        assert forall|d: BoardDirection|
            #[trigger] new.hand_of(d).size() + new.placed(d).len() == old.hand_of(d).size()
                + old.placed(d).len() by {
            if d == player {
                lemma_size_after_pair(old.hand_of(player), new.hand_of(player), top, bottom);
            }
        }
    } else {
        assert forall|d: BoardDirection|
            #[trigger] new.hand_of(d).size() + new.placed(d).len() == old.hand_of(d).size()
                + old.placed(d).len() by {
            assert(new.hand_of(d) == old.hand_of(d));
        }
    }
}

/// A pass never ends a round: in a consistent round, an accepted pass
/// leaves the round going on.
pub proof fn lemma_pass_never_finishes(r: GoitaRound, player: BoardDirection)
    requires
        r.wf(),
        r.action_error(player, PlayerAction::Pass) is None,
    ensures
        r.action_finish(player, PlayerAction::Pass) is None,
{
}

/// Once the round is over every action is refused with
/// `Error::RoundIsOver`; and the round ends exactly when a placement brings
/// its player's board to eight pieces.
pub proof fn lemma_round_end(r: GoitaRound, player: BoardDirection, action: PlayerAction)
    requires
        r.wf(),
    ensures
        r.over() ==> r.action_error(player, action) == Some(Error::RoundIsOver),
        r.action_error(player, action) is None ==> (r.action_finish(player, action) is Some
            <==> (action is Place && r.placed(player).len() + 2 == 8)),
{
}

/// In a valid deal (the hands make up the standard set, with its ten
/// pawns) at most one player holds six or more pawns and at most two hold
/// five or more; the deal check covers every case.
pub proof fn lemma_deal_pawn_bounds(r: GoitaRound)
    requires
        hands_make_up_set(
            r.hand_of(BoardDirection::North),
            r.hand_of(BoardDirection::East),
            r.hand_of(BoardDirection::South),
            r.hand_of(BoardDirection::West),
        ),
    ensures
        five_seats(r.hands_seq()).len() <= 2,
        forall|a: BoardDirection, b: BoardDirection|
            a != b && #[trigger] seat_pawns(r.hands_seq(), a) >= 6 ==> #[trigger] seat_pawns(
                r.hands_seq(),
                b,
            ) < 5,
{
    assert(set_count(Piece::Pawn) == 10);
}

/// Whether a player may place a king as bottom piece: they hold both kings,
/// or have placed six pieces, or exactly one king lies face up on the board.
pub open spec fn may_place_king(r: GoitaRound, player: BoardDirection) -> bool {
    ||| r.hand_of(player).count_of(Piece::King) == 2
    ||| r.placed(player).len() == 6
    ||| count_facing(r.board_state().all_placed(), PieceWithFacing::FaceUp(Piece::King)) == 1
}

/// The bottom piece matters to the placement rules only when it is a king.
/// Any other bottom piece is judged alike. A king is judged as any other
/// piece when the player holds both kings, has placed six pieces, or sees
/// exactly one face-up king on the board; otherwise a placement that would
/// pass with another bottom piece is refused with `InvalidKingPlacement`.
pub proof fn lemma_king_bottom_rule(
    r: GoitaRound,
    player: BoardDirection,
    top: PieceWithFacing,
    b1: Piece,
    b2: Piece,
)
    requires
        b1 != Piece::King,
        b2 != Piece::King,
    ensures
        r.placement_check(player, top, b1) == r.placement_check(player, top, b2),
        may_place_king(r, player) ==> r.placement_check(player, top, Piece::King)
            == r.placement_check(player, top, b1),
        !may_place_king(r, player) ==> r.placement_check(player, top, Piece::King) == if r.placement_check(
            player,
            top,
            b1,
        ) is Ok {
            Err::<(), InvalidPlaceError>(InvalidPlaceError::InvalidKingPlacement)
        } else {
            r.placement_check(player, top, b1)
        },
{
}

/// How the top piece is judged, for a bottom piece other than a king. A
/// face-up top must answer the piece placed last: a piece of the same kind
/// other than a king, or a king over anything but a king, a lance or a pawn;
/// else it is refused with
/// `PieceMismatch`, and with nothing placed yet it is refused with
/// `FaceUpNotAllowed`. A face-down top is accepted from the player who placed
/// last, or when nobody has placed yet, and refused with
/// `FaceDownNotAllowed` from anyone else.
pub proof fn lemma_top_piece_rule(r: GoitaRound, player: BoardDirection, t: Piece, bottom: Piece)
    requires
        bottom != Piece::King,
    ensures
        r.last_piece() is None ==> r.placement_check(player, PieceWithFacing::FaceUp(t), bottom)
            == Err::<(), InvalidPlaceError>(InvalidPlaceError::FaceUpNotAllowed),
        r.last_piece() matches Some(lp) ==> r.placement_check(
            player,
            PieceWithFacing::FaceUp(t),
            bottom,
        ) == if (t != Piece::King && t == lp) || (t == Piece::King && lp != Piece::King && lp
            != Piece::Lance && lp != Piece::Pawn) {
            Ok::<(), InvalidPlaceError>(())
        } else {
            Err(InvalidPlaceError::PieceMismatch { expected: lp, actual: t })
        },
        r.placement_check(player, PieceWithFacing::FaceDown(t), bottom) == if r.last_placer() is None
            || r.last_placer() == Some(player) {
            Ok::<(), InvalidPlaceError>(())
        } else {
            Err(InvalidPlaceError::FaceDownNotAllowed)
        },
{
}

/// A placement that puts a player's seventh and eighth pieces on the board
/// finishes the round, won by that player. The player scores the bottom
/// piece's points, doubled only when the top lies face down (the player
/// placed last, or nobody has placed yet) and is of the bottom piece's kind;
/// a face-up top never doubles.
pub proof fn lemma_finishing_points(r: GoitaRound, player: BoardDirection, top: Piece, bottom: Piece)
    requires
        r.placed(player).len() == 6,
    ensures
        r.action_finish(player, PlayerAction::Place { top, bottom }) == Some(
            (
                player,
                (if (r.last_placer() is None || r.last_placer() == Some(player)) && top == bottom {
                    2 * piece_points(bottom)
                } else {
                    piece_points(bottom)
                }) as u8,
            ),
        ),
{
}

/// A deal that gives two partners five pawns each, or one player six pawns
/// or more, ends the round at once: the round is over and refuses every
/// action with `RoundIsOver`. Any other accepted deal leaves a round that
/// was going on going on.
pub proof fn lemma_deal_ends_round(
    before: GoitaRound,
    after: GoitaRound,
    hands: Seq<Vec<Piece>>,
    e: DealEvent,
)
    requires
        GoitaRound::dealt(before, after, hands, Ok(e)),
    ensures
        (e is FivePawnSameTeam || e is HandRank) ==> after.over(),
        (e is FivePawnSameTeam || e is HandRank) ==> forall|p: BoardDirection, a: PlayerAction|
            #[trigger] after.action_error(p, a) == Some(Error::RoundIsOver),
        !(e is FivePawnSameTeam || e is HandRank) && !before.over() ==> !after.over(),
{
}

/// A placement by the player to move, in a round going on, is refused with
/// `PieceNotInHand` exactly when the player lacks one of the two pieces (or,
/// for two pieces of one kind, holds fewer than two of it).
pub proof fn lemma_pieces_must_be_held(r: GoitaRound, player: BoardDirection, t: Piece, b: Piece)
    requires
        !r.over(),
        player == r.turn(),
    ensures
        r.action_error(player, PlayerAction::Place { top: t, bottom: b }) == Some(
            Error::PieceNotInHand,
        ) <==> if t == b {
            r.hand_of(player).count_of(t) < 2
        } else {
            r.hand_of(player).count_of(t) == 0 || r.hand_of(player).count_of(b) == 0
        },
{
}

/// An accepted placement puts the top piece on the player's row (face down
/// when the player placed last or nobody has placed yet, face up
/// otherwise), then the bottom piece face up; takes both pieces from the
/// player's hand; and makes the player the last to place. Nothing else on
/// the board or in the other hands changes.
pub proof fn lemma_placement_step(
    before: GoitaRound,
    after: GoitaRound,
    player: BoardDirection,
    t: Piece,
    b: Piece,
)
    requires
        GoitaRound::stepped(before, after, player, PlayerAction::Place { top: t, bottom: b }),
    ensures
        after.placed(player) == before.placed(player) + seq![
            if before.last_placer() is None || before.last_placer() == Some(player) {
                PieceWithFacing::FaceDown(t)
            } else {
                PieceWithFacing::FaceUp(t)
            },
            PieceWithFacing::FaceUp(b),
        ],
        forall|d: BoardDirection| d != player ==> #[trigger] after.placed(d) == before.placed(d),
        forall|d: BoardDirection| d != player ==> #[trigger] after.hand_of(d) == before.hand_of(d),
        forall|p: Piece|
            #[trigger] after.hand_of(player).count_of(p) + (if p == t {
                1int
            } else {
                0int
            }) + (if p == b {
                1int
            } else {
                0int
            }) == before.hand_of(player).count_of(p),
        after.last_placer() == Some(player),
        dir_index(after.turn()) == (dir_index(before.turn()) + 1) % 4,
{
    assert(after.placed(player) =~= before.placed(player) + seq![
        before.top_facing(player, t),
        PieceWithFacing::FaceUp(b),
    ]);
}

/// Turn order and passing. In a round going on, an action by anyone but the
/// player to move is refused with `NotYourTurn`. The player to move may pass
/// exactly when someone has placed and it was someone else; otherwise the
/// pass is refused with `InvalidPass`. An accepted pass changes neither the
/// board nor the hands, and the turn moves on clockwise.
pub proof fn lemma_turn_and_pass(
    r: GoitaRound,
    after: GoitaRound,
    player: BoardDirection,
    a: PlayerAction,
)
    ensures
        !r.over() && player != r.turn() ==> r.action_error(player, a) == Some(Error::NotYourTurn),
        !r.over() && player == r.turn() ==> r.action_error(player, PlayerAction::Pass) == if r.last_placer() is None
            || r.last_placer() == Some(player) {
            Some(Error::InvalidPass)
        } else {
            None
        },
        GoitaRound::stepped(r, after, player, PlayerAction::Pass) ==> {
            &&& after.board_state() == r.board_state()
            &&& forall|d: BoardDirection| #[trigger] after.hand_of(d) == r.hand_of(d)
            &&& after.last_placer() == r.last_placer()
            &&& dir_index(after.turn()) == (dir_index(r.turn()) + 1) % 4
        },
{
}

} // verus!
