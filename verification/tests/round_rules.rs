use goita::{
    ApplyResult, BoardDirection, DealEvent, Error, GameResult, GoitaGame, GoitaRound, GoitaRule,
    HandRank, InvalidPlaceError, Piece, PieceWithFacing, PlayerAction, RoundResult, Team,
};

const ALL: [Piece; 8] = [
    Piece::King,
    Piece::Rook,
    Piece::Bishop,
    Piece::Gold,
    Piece::Silver,
    Piece::Knight,
    Piece::Lance,
    Piece::Pawn,
];

const SEATS: [BoardDirection; 4] = [
    BoardDirection::North,
    BoardDirection::East,
    BoardDirection::South,
    BoardDirection::West,
];

fn normal_deal() -> Vec<Vec<Piece>> {
    vec![
        vec![Piece::Gold, Piece::Gold, Piece::Silver, Piece::Lance, Piece::Lance, Piece::Lance, Piece::Pawn, Piece::Pawn],
        vec![Piece::Rook, Piece::Bishop, Piece::Silver, Piece::Knight, Piece::Knight, Piece::Knight, Piece::Lance, Piece::Pawn],
        vec![Piece::King, Piece::Rook, Piece::Gold, Piece::Silver, Piece::Knight, Piece::Pawn, Piece::Pawn, Piece::Pawn],
        vec![Piece::King, Piece::Bishop, Piece::Gold, Piece::Silver, Piece::Pawn, Piece::Pawn, Piece::Pawn, Piece::Pawn],
    ]
}

fn dealt_round(start: BoardDirection) -> GoitaRound {
    let mut round = GoitaRound::new(start);
    assert_eq!(round.deal_hands(normal_deal()), Ok(DealEvent::Normal));
    round
}

// Every kind counted in the four hands and on the board.
fn pieces_in_play(round: &GoitaRound, piece: Piece) -> usize {
    let mut n = 0;
    for d in SEATS {
        n += round.player_hand(d).count(piece) as usize;
        n += round
            .player_board(d)
            .iter()
            .filter(|p| Piece::from(**p) == piece)
            .count();
    }
    n
}

fn standard_count(piece: Piece) -> usize {
    match piece {
        Piece::King | Piece::Rook | Piece::Bishop => 2,
        Piece::Pawn => 10,
        _ => 4,
    }
}

#[test]
fn deal_rejects_wrong_shapes_and_sets() {
    let mut round = GoitaRound::new(BoardDirection::North);
    let mut three = normal_deal();
    three.pop();
    assert_eq!(round.deal_hands(three), Err(Error::InvalidHand));

    let mut short = normal_deal();
    short[2].pop();
    assert_eq!(round.deal_hands(short), Err(Error::InvalidHand));

    let mut wrong = normal_deal();
    wrong[0][0] = Piece::King;
    assert_eq!(round.deal_hands(wrong), Err(Error::InvalidHand));

    // A refused deal leaves the round as it was: empty hands.
    for d in SEATS {
        assert!(round.player_hand(d).is_empty());
    }
    assert_eq!(round.current_turn_player(), Some(BoardDirection::North));
}

#[test]
fn actions_before_the_deal() {
    let mut round = GoitaRound::new(BoardDirection::East);
    assert_eq!(round.action(BoardDirection::East, PlayerAction::Pass), Err(Error::InvalidPass));
    assert_eq!(
        round.action(
            BoardDirection::East,
            PlayerAction::Place { top: Piece::Pawn, bottom: Piece::Pawn }
        ),
        Err(Error::PieceNotInHand)
    );
    assert_eq!(round.action(BoardDirection::North, PlayerAction::Pass), Err(Error::NotYourTurn));
    assert_eq!(round.last_placed_player(), None);
    assert_eq!(round.last_placed_piece(), None);
}

#[test]
fn no_piece_is_created_or_lost() {
    let mut round = dealt_round(BoardDirection::North);
    for p in ALL {
        assert_eq!(pieces_in_play(&round, p), standard_count(p));
    }
    let moves = [
        (BoardDirection::North, PlayerAction::Place { top: Piece::Pawn, bottom: Piece::Lance }),
        (BoardDirection::East, PlayerAction::Place { top: Piece::Lance, bottom: Piece::Knight }),
        (BoardDirection::South, PlayerAction::Pass),
        (BoardDirection::West, PlayerAction::Pass),
        (BoardDirection::North, PlayerAction::Pass),
        (BoardDirection::East, PlayerAction::Place { top: Piece::Knight, bottom: Piece::Pawn }),
    ];
    for (player, action) in moves {
        assert_eq!(round.action(player, action), Ok(ApplyResult::Continuing));
        for p in ALL {
            assert_eq!(pieces_in_play(&round, p), standard_count(p));
        }
        for d in SEATS {
            assert_eq!(round.player_hand(d).len() as usize + round.player_board(d).len(), 8);
        }
    }
    assert_eq!(
        round.player_board(BoardDirection::East),
        vec![
            PieceWithFacing::FaceUp(Piece::Lance),
            PieceWithFacing::FaceUp(Piece::Knight),
            PieceWithFacing::FaceDown(Piece::Knight),
            PieceWithFacing::FaceUp(Piece::Pawn),
        ]
    );
    assert_eq!(round.last_placed_player(), Some(BoardDirection::East));
    assert_eq!(round.last_placed_piece(), Some(Piece::Pawn));
}

#[test]
fn turn_moves_clockwise_and_refusals_change_nothing() {
    let mut round = dealt_round(BoardDirection::South);
    assert_eq!(round.current_turn_player(), Some(BoardDirection::South));
    // Refused: the first action may not be a pass.
    assert_eq!(round.action(BoardDirection::South, PlayerAction::Pass), Err(Error::InvalidPass));
    assert_eq!(round.current_turn_player(), Some(BoardDirection::South));
    assert_eq!(round.player_hand(BoardDirection::South).len(), 8);
    assert_eq!(
        round.action(
            BoardDirection::South,
            PlayerAction::Place { top: Piece::Knight, bottom: Piece::Gold }
        ),
        Ok(ApplyResult::Continuing)
    );
    assert_eq!(round.current_turn_player(), Some(BoardDirection::West));
    assert_eq!(round.action(BoardDirection::West, PlayerAction::Pass), Ok(ApplyResult::Continuing));
    assert_eq!(round.current_turn_player(), Some(BoardDirection::North));
    // The player who placed last may not pass.
    assert_eq!(round.action(BoardDirection::North, PlayerAction::Pass), Ok(ApplyResult::Continuing));
    assert_eq!(round.action(BoardDirection::East, PlayerAction::Pass), Ok(ApplyResult::Continuing));
    assert_eq!(round.action(BoardDirection::South, PlayerAction::Pass), Err(Error::InvalidPass));
    assert_eq!(round.current_turn_player(), Some(BoardDirection::South));
}

#[test]
fn placement_rules() {
    let round = dealt_round(BoardDirection::North);
    // Nothing placed yet: a face-up top piece has nothing to answer.
    assert_eq!(
        round.check_place_pieces(
            BoardDirection::North,
            PieceWithFacing::FaceUp(Piece::Pawn),
            Piece::Pawn
        ),
        Err(InvalidPlaceError::FaceUpNotAllowed)
    );
    // A king bottom needs both kings, six placed pieces, or one face-up king.
    assert_eq!(
        round.check_place_pieces(
            BoardDirection::South,
            PieceWithFacing::FaceDown(Piece::Pawn),
            Piece::King
        ),
        Err(InvalidPlaceError::InvalidKingPlacement)
    );
    assert_eq!(
        round.check_place_pieces(
            BoardDirection::South,
            PieceWithFacing::FaceDown(Piece::Pawn),
            Piece::Gold
        ),
        Ok(())
    );

    let mut round = dealt_round(BoardDirection::North);
    round
        .action(BoardDirection::North, PlayerAction::Place { top: Piece::Gold, bottom: Piece::Gold })
        .unwrap();
    // Only the player who placed last may lay a face-down top piece.
    assert_eq!(
        round.check_place_pieces(
            BoardDirection::East,
            PieceWithFacing::FaceDown(Piece::Pawn),
            Piece::Pawn
        ),
        Err(InvalidPlaceError::FaceDownNotAllowed)
    );
    // A face-up piece must be of the kind placed last ...
    assert_eq!(
        round.action(BoardDirection::East, PlayerAction::Place { top: Piece::Silver, bottom: Piece::Pawn }),
        Err(Error::InvalidPlace(InvalidPlaceError::PieceMismatch {
            expected: Piece::Gold,
            actual: Piece::Silver
        }))
    );
    // ... or a king, which answers a gold.
    assert_eq!(
        round.check_place_pieces(
            BoardDirection::South,
            PieceWithFacing::FaceUp(Piece::King),
            Piece::Pawn
        ),
        Ok(())
    );
    assert_eq!(
        round.action(BoardDirection::East, PlayerAction::Place { top: Piece::Gold, bottom: Piece::Pawn }),
        Err(Error::PieceNotInHand)
    );
    assert_eq!(
        round.action(BoardDirection::East, PlayerAction::Place { top: Piece::Knight, bottom: Piece::Knight }),
        Err(Error::InvalidPlace(InvalidPlaceError::PieceMismatch {
            expected: Piece::Gold,
            actual: Piece::Knight
        }))
    );
    assert_eq!(round.action(BoardDirection::South, PlayerAction::Pass), Err(Error::NotYourTurn));
}

#[test]
fn round_ends_with_the_eighth_piece() {
    let mut round = dealt_round(BoardDirection::West);
    let west_moves = [
        (Piece::Pawn, Piece::Pawn),
        (Piece::Pawn, Piece::Pawn),
        (Piece::Bishop, Piece::Silver),
        (Piece::Gold, Piece::King),
    ];
    for (i, (top, bottom)) in west_moves.iter().enumerate() {
        let result = round.action(BoardDirection::West, PlayerAction::Place { top: *top, bottom: *bottom });
        if i < 3 {
            assert_eq!(result, Ok(ApplyResult::Continuing));
            for d in [BoardDirection::North, BoardDirection::East, BoardDirection::South] {
                assert_eq!(round.action(d, PlayerAction::Pass), Ok(ApplyResult::Continuing));
            }
        } else {
            // Face-down gold over a king: no double, the king's 50 points.
            assert_eq!(result, Ok(ApplyResult::RoundOver(RoundResult::new(BoardDirection::West, 50))));
        }
    }
    assert!(round.round_is_over());
    assert_eq!(round.current_turn_player(), None);
    assert_eq!(round.action(BoardDirection::North, PlayerAction::Pass), Err(Error::RoundIsOver));
    let result = RoundResult::new(BoardDirection::West, 50);
    assert_eq!(result.winning_team(), Team::EastWest);
    assert_eq!(result.winning_player(), BoardDirection::West);
    assert_eq!(result.score(), 50);
}

#[test]
fn special_hands_end_the_round_at_once() {
    let mut round = GoitaRound::new(BoardDirection::North);
    let event = round
        .deal_hands(vec![
            vec![Piece::King, Piece::Gold, Piece::Pawn, Piece::Pawn, Piece::Pawn, Piece::Pawn, Piece::Pawn, Piece::Pawn],
            vec![Piece::King, Piece::Rook, Piece::Rook, Piece::Bishop, Piece::Bishop, Piece::Gold, Piece::Gold, Piece::Gold],
            vec![Piece::Silver, Piece::Silver, Piece::Silver, Piece::Silver, Piece::Knight, Piece::Knight, Piece::Knight, Piece::Knight],
            vec![Piece::Lance, Piece::Lance, Piece::Lance, Piece::Lance, Piece::Pawn, Piece::Pawn, Piece::Pawn, Piece::Pawn],
        ])
        .unwrap();
    // Six pawns with a king and a gold: the higher value, 50.
    assert_eq!(
        event,
        DealEvent::HandRank { player: BoardDirection::North, rank: HandRank::SixPawn { score: 50 } }
    );
    assert!(round.round_is_over());
    assert_eq!(round.current_turn_player(), None);
    assert_eq!(round.action(BoardDirection::North, PlayerAction::Pass), Err(Error::RoundIsOver));

    let mut round = GoitaRound::new(BoardDirection::North);
    let event = round
        .deal_hands(vec![
            vec![Piece::Gold, Piece::Gold, Piece::Silver, Piece::Lance, Piece::Lance, Piece::Lance, Piece::Pawn, Piece::Pawn],
            vec![Piece::King, Piece::King, Piece::Pawn, Piece::Pawn, Piece::Pawn, Piece::Pawn, Piece::Pawn, Piece::Pawn],
            vec![Piece::Rook, Piece::Rook, Piece::Bishop, Piece::Bishop, Piece::Gold, Piece::Gold, Piece::Silver, Piece::Silver],
            vec![Piece::Silver, Piece::Knight, Piece::Knight, Piece::Knight, Piece::Knight, Piece::Lance, Piece::Pawn, Piece::Pawn],
        ])
        .unwrap();
    // Six pawns with two kings: twice the king's value.
    assert_eq!(
        event,
        DealEvent::HandRank { player: BoardDirection::East, rank: HandRank::SixPawn { score: 100 } }
    );
}

#[test]
fn game_that_is_over_refuses_everything() {
    let mut game = GoitaGame::new_with_seed(GoitaRule::new(0), BoardDirection::North, 7);
    assert_eq!(game.check_game_over(), Some(GameResult::new(Team::NorthSouth, 0, 0)));
    assert_eq!(game.start_new_round(), Err(Error::GameIsOver));
    assert_eq!(game.play_turn(BoardDirection::North, PlayerAction::Pass), Err(Error::GameIsOver));
    assert_eq!(
        game.check_place_piece(
            BoardDirection::North,
            PieceWithFacing::FaceDown(Piece::Pawn),
            Piece::Pawn
        ),
        Err(Error::GameIsOver)
    );
    assert_eq!(game.current_turn_player(), None);
    assert_eq!(game.player_hand(BoardDirection::North), None);
    assert_eq!(game.player_board(BoardDirection::North), None);
    assert_eq!(game.last_placed_piece(), None);
}

#[test]
fn game_before_the_first_round() {
    let mut game = GoitaGame::new_with_seed(GoitaRule::default(), BoardDirection::East, 1);
    assert_eq!(GoitaRule::default().winning_score(), 150);
    assert_eq!(game.check_game_over(), None);
    assert_eq!(game.current_turn_player(), None);
    assert_eq!(game.play_turn(BoardDirection::East, PlayerAction::Pass), Err(Error::GameNotStarted));
    assert_eq!(
        game.check_place_piece(
            BoardDirection::East,
            PieceWithFacing::FaceDown(Piece::Pawn),
            Piece::Pawn
        ),
        Err(Error::GameNotStarted)
    );
    assert_eq!(game.score(Team::NorthSouth), 0);
    assert_eq!(game.score(Team::EastWest), 0);
}

#[test]
fn every_deal_hands_out_the_whole_set() {
    for seed in 0..40u64 {
        let mut game = GoitaGame::new_with_seed(GoitaRule::new(1000), BoardDirection::North, seed);
        let event = game.start_new_round().unwrap();
        let mut counts = [0usize; 8];
        for d in SEATS {
            let hand = game.player_hand(d).unwrap();
            assert_eq!(hand.len(), 8);
            for w in hand.windows(2) {
                assert!(w[0] <= w[1]);
            }
            for p in hand {
                counts[ALL.iter().position(|q| *q == p).unwrap()] += 1;
            }
        }
        for (i, p) in ALL.iter().enumerate() {
            assert_eq!(counts[i], standard_count(*p));
        }
        // The deal event is scored as the rules say.
        let (ns, ew) = (game.ns_score(), game.ew_score());
        match event {
            DealEvent::FivePawnSameTeam { team } => {
                assert_eq!(game.score(team), 1000);
                assert!(game.check_game_over().is_some());
            }
            DealEvent::HandRank { player, rank } => {
                let points = match rank {
                    HandRank::SixPawn { score } | HandRank::SevenPawn { score } => score as u32,
                    HandRank::EightPawn => 100,
                };
                assert_eq!(game.score(Team::from(player)), points);
                assert_eq!(ns + ew, points);
                assert_eq!(game.current_turn_player(), None);
            }
            _ => {
                assert_eq!((ns, ew), (0, 0));
                assert_eq!(game.current_turn_player(), Some(BoardDirection::North));
            }
        }
    }
}

#[test]
fn game_result_reports_both_scores() {
    let result = GameResult::new(Team::EastWest, 40, 160);
    assert_eq!(*result.winning_team(), Team::EastWest);
    assert_eq!(result.north_south_score(), 40);
    assert_eq!(result.east_west_score(), 160);
    assert_eq!(result.score(Team::NorthSouth), 40);
    assert_eq!(result.score(Team::EastWest), 160);
}

#[test]
fn deals_are_shuffled() {
    let sorted_cut = vec![
        Piece::King,
        Piece::King,
        Piece::Rook,
        Piece::Rook,
        Piece::Bishop,
        Piece::Bishop,
        Piece::Gold,
        Piece::Gold,
    ];
    let mut differing = 0;
    for seed in 0..10u64 {
        let mut game = GoitaGame::new_with_seed(GoitaRule::default(), BoardDirection::North, seed);
        game.start_new_round().unwrap();
        if game.player_hand(BoardDirection::North).unwrap() != sorted_cut {
            differing += 1;
        }
    }
    assert!(differing > 0);
    // The same seed gives the same deal.
    let mut a = GoitaGame::new_with_seed(GoitaRule::default(), BoardDirection::North, 99);
    let mut b = GoitaGame::new_with_seed(GoitaRule::default(), BoardDirection::North, 99);
    assert_eq!(a.start_new_round(), b.start_new_round());
    for d in SEATS {
        assert_eq!(a.player_hand(d), b.player_hand(d));
    }
}

#[test]
fn five_pawn_partners_win_the_game_at_once() {
    let mut found = false;
    for seed in 0..200_000u64 {
        let mut game = GoitaGame::new_with_seed(GoitaRule::new(150), BoardDirection::North, seed);
        if let Ok(DealEvent::FivePawnSameTeam { team }) = game.start_new_round() {
            assert_eq!(game.score(team), 150);
            let result = game.check_game_over().unwrap();
            assert_eq!(*result.winning_team(), team);
            assert_eq!(game.start_new_round(), Err(Error::GameIsOver));
            found = true;
            break;
        }
    }
    assert!(found);
}

#[test]
fn new_game_has_an_initialized_first_round() {
    let mut game = GoitaGame::new(GoitaRule::default(), BoardDirection::South);
    assert_eq!(game.ns_score(), 0);
    assert_eq!(game.ew_score(), 0);
    for d in SEATS {
        assert_eq!(game.player_board(d), Some(vec![]));
        assert_eq!(game.player_hand(d), Some(vec![]));
    }
    assert_eq!(game.current_turn_player(), Some(BoardDirection::South));
    assert_eq!(game.play_turn(BoardDirection::South, PlayerAction::Pass), Err(Error::InvalidPass));
    game.start_new_round().unwrap();
    for d in SEATS {
        assert_eq!(game.player_hand(d).unwrap().len(), 8);
    }
    let default_game = GoitaGame::default();
    assert_eq!(default_game.player_board(BoardDirection::North), Some(vec![]));
}
