use goita::{
    convert_piece_to_str, convert_str_to_piece, Board, BoardDirection, Hand, Piece,
    PieceWithFacing, Team, DEFAULT_PIECES,
};

const ALL: [Piece; 8] = [
    Piece::King,
    Piece::Rook,
    Piece::Bishop,
    Piece::Gold,
    Piece::Silver,
    Piece::Knight,
    Piece::Lance,
    Piece::Pawn,
];

#[test]
fn four_steps_clockwise_return_to_the_start() {
    for i in 0u8..4 {
        let d = BoardDirection::from(i);
        assert_ne!(d.next(), d);
        assert_eq!(d.next().next().next().next(), d);
        assert_eq!(usize::from(d.next()), (usize::from(d) + 1) % 4);
    }
    assert_eq!(BoardDirection::West.next(), BoardDirection::North);
}

#[test]
fn seat_numbers_round_trip() {
    for i in 0u8..4 {
        let d = BoardDirection::from(i);
        assert_eq!(usize::from(d), i as usize);
        assert_eq!(BoardDirection::from(usize::from(d) as u8), d);
    }
    assert_eq!(BoardDirection::from(5), BoardDirection::East);
    assert_eq!(BoardDirection::from(255), BoardDirection::West);
}

#[test]
fn partners_sit_opposite() {
    for i in 0u8..4 {
        let d = BoardDirection::from(i);
        assert_eq!(Team::from(d), Team::from(d.next().next()));
        assert_ne!(Team::from(d), Team::from(d.next()));
    }
}

#[test]
fn piece_values_and_the_standard_set() {
    let values: Vec<u8> = ALL.iter().map(|p| p.point_value()).collect();
    assert_eq!(values, vec![50, 40, 40, 30, 30, 20, 20, 10]);
    let total: u32 = DEFAULT_PIECES.iter().map(|(_, c)| *c as u32).sum();
    assert_eq!(total, 32);
    assert_eq!(DEFAULT_PIECES[7], (Piece::Pawn, 10));
    assert_eq!(Piece::from(PieceWithFacing::FaceDown(Piece::Gold)), Piece::Gold);
    assert_eq!(Piece::from(PieceWithFacing::FaceUp(Piece::King)), Piece::King);
}

#[test]
fn hand_counts_add_remove() {
    let mut hand = Hand::new();
    assert!(hand.is_empty());
    assert_eq!(hand.len(), 0);
    hand.add(Piece::Pawn);
    hand.add(Piece::Gold);
    hand.add(Piece::Pawn);
    assert_eq!(hand.len(), 3);
    assert_eq!(hand.count(Piece::Pawn), 2);
    assert!(hand.contains(Piece::Gold));
    assert!(!hand.contains(Piece::King));
    assert!(!hand.is_empty());
    hand.remove(Piece::Pawn);
    assert_eq!(hand.count(Piece::Pawn), 1);
    assert_eq!(hand.len(), 2);
}

#[test]
fn remove_undoes_add() {
    let before = Hand::new_with_pieces(vec![Piece::Pawn, Piece::Gold, Piece::King]);
    let mut hand = before;
    hand.add(Piece::Lance);
    assert_ne!(hand, before);
    hand.remove(Piece::Lance);
    assert_eq!(hand, before);
}

#[test]
fn hand_pieces_are_sorted_and_round_trip() {
    let hand = Hand::new_with_pieces(vec![
        Piece::Pawn,
        Piece::King,
        Piece::Lance,
        Piece::Gold,
        Piece::Pawn,
        Piece::Rook,
    ]);
    let pieces = hand.pieces();
    assert_eq!(
        pieces,
        vec![Piece::King, Piece::Rook, Piece::Gold, Piece::Lance, Piece::Pawn, Piece::Pawn]
    );
    assert_eq!(pieces.len(), hand.len() as usize);
    let rebuilt = Hand::new_with_pieces(pieces);
    assert_eq!(rebuilt, hand);
    for p in ALL {
        assert_eq!(rebuilt.count(p), hand.count(p));
    }
}

#[test]
fn hand_iter_lists_held_kinds_in_order() {
    let hand = Hand::new_with_pieces(vec![Piece::Pawn, Piece::Gold, Piece::Pawn, Piece::King]);
    assert_eq!(
        hand.iter(),
        vec![(Piece::King, 1), (Piece::Gold, 1), (Piece::Pawn, 2)]
    );
    assert_eq!(Hand::new().iter(), vec![]);
    assert_eq!(Hand::default(), Hand::new());
}

#[test]
fn hand_of_eight_pieces() {
    let hand = Hand::new_with_pieces(vec![Piece::Pawn; 8]);
    assert_eq!(hand.len(), 8);
    assert_eq!(hand.count(Piece::Pawn), 8);
}

#[test]
fn board_keeps_each_players_pieces_in_order() {
    let mut board = Board::default();
    assert!(board.get_all_pieces().is_empty());
    board.place_pieces(BoardDirection::South, PieceWithFacing::FaceDown(Piece::Rook), Piece::Pawn);
    board.place_pieces(BoardDirection::North, PieceWithFacing::FaceUp(Piece::Pawn), Piece::Gold);
    board.place_pieces(BoardDirection::South, PieceWithFacing::FaceUp(Piece::Gold), Piece::Lance);
    assert_eq!(
        board.get_pieces(BoardDirection::South),
        vec![
            PieceWithFacing::FaceDown(Piece::Rook),
            PieceWithFacing::FaceUp(Piece::Pawn),
            PieceWithFacing::FaceUp(Piece::Gold),
            PieceWithFacing::FaceUp(Piece::Lance),
        ]
    );
    assert_eq!(board.get_pieces(BoardDirection::East), vec![]);
    assert_eq!(
        board.get_all_pieces(),
        vec![
            PieceWithFacing::FaceUp(Piece::Pawn),
            PieceWithFacing::FaceUp(Piece::Gold),
            PieceWithFacing::FaceDown(Piece::Rook),
            PieceWithFacing::FaceUp(Piece::Pawn),
            PieceWithFacing::FaceUp(Piece::Gold),
            PieceWithFacing::FaceUp(Piece::Lance),
        ]
    );
    assert_eq!(board.count_pieces(BoardDirection::South), 4);
}

#[test]
fn piece_codes_round_trip() {
    for p in ALL {
        let code = convert_piece_to_str(p);
        assert_eq!(code.len(), 1);
        assert_eq!(convert_str_to_piece(code), Some(p));
    }
    assert_eq!(convert_piece_to_str(Piece::Knight), "n");
    assert_eq!(convert_str_to_piece("x"), None);
    assert_eq!(convert_str_to_piece("kk"), None);
    assert_eq!(convert_str_to_piece(""), None);
    assert_eq!(convert_str_to_piece("K"), None);
}

#[test]
fn standard_set_lists_each_kind_in_order() {
    let set = goita::deal::standard_set();
    assert_eq!(set.len(), 32);
    assert_eq!(&set[0..2], &[Piece::King, Piece::King]);
    assert_eq!(&set[22..32], &[Piece::Pawn; 10]);
    for (p, c) in DEFAULT_PIECES {
        assert_eq!(set.iter().filter(|q| **q == p).count(), c as usize);
    }
}

#[test]
fn cutting_deals_eight_pieces_in_order() {
    let set = goita::deal::standard_set();
    let hands = goita::deal::cut_into_hands(&set);
    assert_eq!(hands.len(), 4);
    for (i, hand) in hands.iter().enumerate() {
        assert_eq!(hand.as_slice(), &set[8 * i..8 * i + 8]);
    }
    assert_eq!(hands[0], vec![
        Piece::King, Piece::King, Piece::Rook, Piece::Rook,
        Piece::Bishop, Piece::Bishop, Piece::Gold, Piece::Gold,
    ]);
    assert_eq!(hands[3], vec![Piece::Pawn; 8]);
}

#[test]
fn hand_iter_counts_add_up_to_len() {
    let hand = Hand::new_with_pieces(vec![
        Piece::Pawn, Piece::Pawn, Piece::Pawn, Piece::Lance,
        Piece::Knight, Piece::Knight, Piece::Rook, Piece::King,
    ]);
    let listed = hand.iter();
    let total: u32 = listed.iter().map(|(_, c)| *c as u32).sum();
    assert_eq!(total, hand.len() as u32);
    for (p, c) in &listed {
        assert_eq!(*c, hand.count(*p));
        assert!(*c > 0);
    }
    assert_eq!(listed.len(), 5);
}
