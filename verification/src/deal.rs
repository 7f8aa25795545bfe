use rand::rngs::StdRng;
use vstd::prelude::*;

use crate::board::{dir_index, team_of, BoardDirection, Team};
use crate::hand::{lemma_flat_occurrences, Hand};
use crate::piece::{
    copies, default_count, expand_upto, full_set, lemma_expand_len, lemma_expand_occurrences, lemma_full_set, lemma_occurrences_concat,
    lemma_occurrences_multiset, lemma_piece_index, occurrences, piece_at, piece_index, piece_points,
    set_count, sum_upto, Piece, DEFAULT_PIECES,
};
use crate::random::shuffle_pieces;
use crate::types::{DealEvent, HandRank};

verus! {

/// Copies a list of pieces element by element.
pub(crate) fn copy_piece_list(v: &Vec<Piece>) -> (r: Vec<Piece>)
    ensures
        r@ == v@,
{
    let mut r: Vec<Piece> = Vec::new();
    let mut i: usize = 0;
    while i < v.len()
        invariant
            i <= v.len(),
            r@ == v@.take(i as int),
        decreases v.len() - i,
    {
        r.push(v[i]);
        i = i + 1;
        assert(r@ =~= v@.take(i as int));
    }
    assert(v@.take(v.len() as int) =~= v@);
    r
}

/// Whether a deal event ends the round at once.
pub open spec fn ends_round(e: DealEvent) -> bool {
    e is FivePawnSameTeam || e is HandRank
}

/// Whether `hands` are four hands of eight pieces that together make up the
/// standard set.
pub open spec fn valid_deal(hands: Seq<Vec<Piece>>) -> bool {
    &&& hands.len() == 4
    &&& forall|i: int| 0 <= i < 4 ==> #[trigger] hands[i]@.len() == 8
    &&& forall|p: Piece|
        #[trigger] set_count(p) == occurrences(hands[0]@, p) + occurrences(hands[1]@, p)
            + occurrences(hands[2]@, p) + occurrences(hands[3]@, p)
}

/// The score of seven pawns: twice the value of the hand's other piece.
pub open spec fn seven_score(h: Hand) -> nat {
    2 * piece_points(h.non_pawns()[0])
}

/// The score of six pawns, from the hand's two other pieces: twice their
/// value when they are of one kind, else the higher of the two values.
pub open spec fn six_score(h: Hand) -> nat {
    let first = h.non_pawns()[1];
    let second = h.non_pawns()[0];
    if first == second {
        2 * piece_points(first)
    } else if piece_points(first) > piece_points(second) {
        piece_points(first)
    } else {
        piece_points(second)
    }
}

/// Whether four hands together hold each kind exactly as often as the
/// standard set does.
pub open spec fn hands_make_up_set(h0: Hand, h1: Hand, h2: Hand, h3: Hand) -> bool {
    forall|p: Piece|
        #[trigger] set_count(p) == h0.count_of(p) + h1.count_of(p) + h2.count_of(p) + h3.count_of(
            p,
        )
}

/// Checks, kind by kind against `DEFAULT_PIECES`, whether four hands of eight
/// pieces together make up the standard set.
pub(crate) fn make_up_full_set(h0: &Hand, h1: &Hand, h2: &Hand, h3: &Hand) -> (b: bool)
    requires
        h0.size() == 8,
        h1.size() == 8,
        h2.size() == 8,
        h3.size() == 8,
    ensures
        b == hands_make_up_set(*h0, *h1, *h2, *h3),
{
    let mut k: usize = 0;
    while k < 8
        invariant
            k <= 8,
            h0.size() == 8,
            h1.size() == 8,
            h2.size() == 8,
            h3.size() == 8,
            forall|p: Piece|
                piece_index(p) < k ==> #[trigger] set_count(p) == h0.count_of(p) + h1.count_of(p)
                    + h2.count_of(p) + h3.count_of(p),
        decreases 8 - k,
    {
        let p = Piece::from_index(k);
        let total = h0.count(p) + h1.count(p) + h2.count(p) + h3.count(p);
        if total != default_count(p) {
            return false;
        }
        k = k + 1;
    }
    assert forall|p: Piece| #[trigger]
        set_count(p) == h0.count_of(p) + h1.count_of(p) + h2.count_of(p) + h3.count_of(p) by {
        lemma_piece_index(p);
    }
    true
}

/// How many pawns the player at `d` holds.
pub open spec fn seat_pawns(hs: Seq<Hand>, d: BoardDirection) -> nat {
    hs[dir_index(d)].count_of(Piece::Pawn)
}

/// The first seat, in the order North, East, South, West, whose player
/// holds exactly `n` pawns.
pub open spec fn first_seat_with(hs: Seq<Hand>, n: nat) -> Option<BoardDirection> {
    if seat_pawns(hs, BoardDirection::North) == n {
        Some(BoardDirection::North)
    } else if seat_pawns(hs, BoardDirection::East) == n {
        Some(BoardDirection::East)
    } else if seat_pawns(hs, BoardDirection::South) == n {
        Some(BoardDirection::South)
    } else if seat_pawns(hs, BoardDirection::West) == n {
        Some(BoardDirection::West)
    } else {
        None
    }
}

/// The seats whose players hold five or more pawns, in seat order.
pub open spec fn five_seats(hs: Seq<Hand>) -> Seq<BoardDirection> {
    let n = if seat_pawns(hs, BoardDirection::North) >= 5 {
        seq![BoardDirection::North]
    } else {
        Seq::empty()
    };
    let e = if seat_pawns(hs, BoardDirection::East) >= 5 {
        seq![BoardDirection::East]
    } else {
        Seq::empty()
    };
    let s = if seat_pawns(hs, BoardDirection::South) >= 5 {
        seq![BoardDirection::South]
    } else {
        Seq::empty()
    };
    let w = if seat_pawns(hs, BoardDirection::West) >= 5 {
        seq![BoardDirection::West]
    } else {
        Seq::empty()
    };
    n + e + s + w
}

/// What the deal is: eight pawns in one hand; else seven pawns (twice
/// the value of the other piece); else six pawns (the two other pieces:
/// twice their value when they are of one kind, else the higher value);
/// else by the players with five or more pawns: two partners, two
/// opponents, or one player; else nothing special. Hands are searched
/// in seat order North, East, South, West.
pub open spec fn deal_event_of(hs: Seq<Hand>) -> DealEvent {
    match first_seat_with(hs, 8) {
        Some(d) => DealEvent::HandRank { player: d, rank: HandRank::EightPawn },
        None => match first_seat_with(hs, 7) {
            Some(d) => DealEvent::HandRank {
                player: d,
                rank: HandRank::SevenPawn { score: seven_score(hs[dir_index(d)]) as u8 },
            },
            None => match first_seat_with(hs, 6) {
                Some(d) => DealEvent::HandRank {
                    player: d,
                    rank: HandRank::SixPawn { score: six_score(hs[dir_index(d)]) as u8 },
                },
                None => {
                    let f = five_seats(hs);
                    if f.len() == 2 {
                        if team_of(f[0]) == team_of(f[1]) {
                            DealEvent::FivePawnSameTeam { team: team_of(f[0]) }
                        } else {
                            DealEvent::FivePawnBothTeams
                        }
                    } else if f.len() == 1 {
                        DealEvent::FivePawn { player: f[0] }
                    } else {
                        DealEvent::Normal
                    }
                },
            },
        },
    }
}

/// The seat of the first player, in seat order, holding exactly `n` pawns.
fn seat_with_pawns(hands: &[Hand; 4], n: u8) -> (r: Option<BoardDirection>)
    ensures
        r == first_seat_with(hands@, n as nat),
{
    if hands[0].count(Piece::Pawn) == n {
        Some(BoardDirection::North)
    } else if hands[1].count(Piece::Pawn) == n {
        Some(BoardDirection::East)
    } else if hands[2].count(Piece::Pawn) == n {
        Some(BoardDirection::South)
    } else if hands[3].count(Piece::Pawn) == n {
        Some(BoardDirection::West)
    } else {
        None
    }
}

/// Determines the deal event of the dealt hands (see `deal_event`).
pub(crate) fn check_deal_event(hands: &[Hand; 4]) -> (e: DealEvent)
    requires
        forall|i: int| 0 <= i < 4 ==> #[trigger] hands@[i].size() == 8,
    ensures
        e == deal_event_of(hands@),
{
    if let Some(player) = seat_with_pawns(hands, 8) {
        return DealEvent::HandRank { player, rank: HandRank::EightPawn };
    }
    if let Some(player) = seat_with_pawns(hands, 7) {
        let hand = hands[player.index()];
        let pieces = hand.pieces();
        proof {
            lemma_flat_occurrences(hand, Piece::Pawn);
            assert(hand.non_pawns().len() == 1);
            assert(pieces@[0] == hand.non_pawns()[0]);
        }
        let remain_piece = pieces[0];
        return DealEvent::HandRank {
            player,
            rank: HandRank::SevenPawn { score: remain_piece.point_value() * 2 },
        };
    }
    if let Some(player) = seat_with_pawns(hands, 6) {
        let hand = hands[player.index()];
        let pieces = hand.pieces();
        proof {
            lemma_flat_occurrences(hand, Piece::Pawn);
            assert(hand.non_pawns().len() == 2);
            assert(pieces@[0] == hand.non_pawns()[0]);
            assert(pieces@[1] == hand.non_pawns()[1]);
        }
        let first_piece = pieces[1];
        let second_piece = pieces[0];
        let double_up = first_piece == second_piece;
        let score = if double_up {
            first_piece.point_value() * 2
        } else if first_piece.point_value() > second_piece.point_value() {
            first_piece.point_value()
        } else {
            second_piece.point_value()
        };
        return DealEvent::HandRank { player, rank: HandRank::SixPawn { score } };
    }
    let mut event_players: Vec<BoardDirection> = Vec::new();
    if hands[0].count(Piece::Pawn) >= 5 {
        event_players.push(BoardDirection::North);
    }
    if hands[1].count(Piece::Pawn) >= 5 {
        event_players.push(BoardDirection::East);
    }
    if hands[2].count(Piece::Pawn) >= 5 {
        event_players.push(BoardDirection::South);
    }
    if hands[3].count(Piece::Pawn) >= 5 {
        event_players.push(BoardDirection::West);
    }
    assert(event_players@ =~= five_seats(hands@));
    if event_players.len() == 2 {
        let team1 = Team::from(event_players[0]);
        let team2 = Team::from(event_players[1]);
        if team1 == team2 {
            DealEvent::FivePawnSameTeam { team: team1 }
        } else {
            DealEvent::FivePawnBothTeams
        }
    } else if event_players.len() == 1 {
        DealEvent::FivePawn { player: event_players[0] }
    } else {
        DealEvent::Normal
    }
}


/// How many pawns the hand at `d` holds, `d` being any seat.
spec fn pawns_at(hs: Seq<Hand>, d: BoardDirection) -> nat {
    hs[dir_index(d)].count_of(Piece::Pawn)
}

/// A hand of six, seven or eight pawns makes the deal a special hand of
/// its holder, whichever seat they sit at: eight pawns rank as `EightPawn`,
/// seven as `SevenPawn` and six as `SixPawn`. (The set has ten pawns, so no
/// other hand can hold as many.)
pub proof fn lemma_pawn_hands_rank(hs: Seq<Hand>, d: BoardDirection)
    requires
        hs.len() == 4,
        hands_make_up_set(hs[0], hs[1], hs[2], hs[3]),
    ensures
        hs[dir_index(d)].count_of(Piece::Pawn) == 8 ==> deal_event_of(hs) == (DealEvent::HandRank {
            player: d,
            rank: HandRank::EightPawn,
        }),
        hs[dir_index(d)].count_of(Piece::Pawn) == 7 ==> (deal_event_of(hs) matches DealEvent::HandRank {
            player,
            rank: HandRank::SevenPawn { .. },
        } && player == d),
        hs[dir_index(d)].count_of(Piece::Pawn) == 6 ==> (deal_event_of(hs) matches DealEvent::HandRank {
            player,
            rank: HandRank::SixPawn { .. },
        } && player == d),
{
    assert(set_count(Piece::Pawn) == 10);
    assert(pawns_at(hs, BoardDirection::North) + pawns_at(hs, BoardDirection::East) + pawns_at(
        hs,
        BoardDirection::South,
    ) + pawns_at(hs, BoardDirection::West) == 10);
}

/// When no hand holds six pawns or more, the hands of five pawns decide the
/// deal: five pawns in each of two partners' hands win for their team
/// (`FivePawnSameTeam`), in two opponents' hands they give
/// `FivePawnBothTeams`, and in a single hand `FivePawn` of its holder. With
/// no hand of five pawns the deal is `Normal`.
pub proof fn lemma_five_pawn_hands(hs: Seq<Hand>, d1: BoardDirection, d2: BoardDirection)
    requires
        hs.len() == 4,
        hands_make_up_set(hs[0], hs[1], hs[2], hs[3]),
    ensures
        d1 != d2 && hs[dir_index(d1)].count_of(Piece::Pawn) == 5 && hs[dir_index(d2)].count_of(
            Piece::Pawn,
        ) == 5 ==> deal_event_of(hs) == if team_of(d1) == team_of(d2) {
            DealEvent::FivePawnSameTeam { team: team_of(d1) }
        } else {
            DealEvent::FivePawnBothTeams
        },
        (hs[dir_index(d1)].count_of(Piece::Pawn) == 5 && forall|d: BoardDirection|
            d != d1 ==> #[trigger] hs[dir_index(d)].count_of(Piece::Pawn) < 5) ==> deal_event_of(hs)
            == (DealEvent::FivePawn { player: d1 }),
        (forall|d: BoardDirection| #[trigger] hs[dir_index(d)].count_of(Piece::Pawn) < 5)
            ==> deal_event_of(hs) == DealEvent::Normal,
{
    assert(set_count(Piece::Pawn) == 10);
    let n = pawns_at(hs, BoardDirection::North);
    let e = pawns_at(hs, BoardDirection::East);
    let s = pawns_at(hs, BoardDirection::South);
    let w = pawns_at(hs, BoardDirection::West);
    assert(n + e + s + w == 10);
    let f = five_seats(hs);
    if n < 5 && e < 5 && s < 5 && w < 5 {
        assert(f.len() == 0);
    }
    if hs[dir_index(d1)].count_of(Piece::Pawn) == 5 && forall|d: BoardDirection|
        d != d1 ==> #[trigger] hs[dir_index(d)].count_of(Piece::Pawn) < 5 {
        assert(pawns_at(hs, BoardDirection::North) == n);
        match d1 {
            BoardDirection::North => {
                assert(hs[dir_index(BoardDirection::East)].count_of(Piece::Pawn) < 5);
                assert(hs[dir_index(BoardDirection::South)].count_of(Piece::Pawn) < 5);
                assert(hs[dir_index(BoardDirection::West)].count_of(Piece::Pawn) < 5);
                assert(f =~= seq![BoardDirection::North]);
            },
            BoardDirection::East => {
                assert(hs[dir_index(BoardDirection::North)].count_of(Piece::Pawn) < 5);
                assert(hs[dir_index(BoardDirection::South)].count_of(Piece::Pawn) < 5);
                assert(hs[dir_index(BoardDirection::West)].count_of(Piece::Pawn) < 5);
                assert(f =~= seq![BoardDirection::East]);
            },
            BoardDirection::South => {
                assert(hs[dir_index(BoardDirection::North)].count_of(Piece::Pawn) < 5);
                assert(hs[dir_index(BoardDirection::East)].count_of(Piece::Pawn) < 5);
                assert(hs[dir_index(BoardDirection::West)].count_of(Piece::Pawn) < 5);
                assert(f =~= seq![BoardDirection::South]);
            },
            BoardDirection::West => {
                assert(hs[dir_index(BoardDirection::North)].count_of(Piece::Pawn) < 5);
                assert(hs[dir_index(BoardDirection::East)].count_of(Piece::Pawn) < 5);
                assert(hs[dir_index(BoardDirection::South)].count_of(Piece::Pawn) < 5);
                assert(f =~= seq![BoardDirection::West]);
            },
        }
    }
    if d1 != d2 && hs[dir_index(d1)].count_of(Piece::Pawn) == 5 && hs[dir_index(d2)].count_of(
        Piece::Pawn,
    ) == 5 {
        let g = if dir_index(d1) < dir_index(d2) {
            seq![d1, d2]
        } else {
            seq![d2, d1]
        };
        assert(f =~= g) by {
            match d1 {
                BoardDirection::North => {},
                BoardDirection::East => {},
                BoardDirection::South => {},
                BoardDirection::West => {},
            }
        }
    }
}

/// The points of a special hand. Seven pawns score twice the value of the
/// hand's other piece. Six pawns score twice the value of the two other
/// pieces when they are of one kind, and the higher of their two values
/// when they are not.
pub proof fn lemma_pawn_hand_scores(hs: Seq<Hand>, d: BoardDirection, q1: Piece, q2: Piece)
    requires
        hs.len() == 4,
        hands_make_up_set(hs[0], hs[1], hs[2], hs[3]),
        forall|i: int| 0 <= i < 4 ==> #[trigger] hs[i].size() == 8,
        q1 != Piece::Pawn,
        q2 != Piece::Pawn,
    ensures
        hs[dir_index(d)].count_of(Piece::Pawn) == 7 && hs[dir_index(d)].count_of(q1) == 1
            ==> deal_event_of(hs) == (DealEvent::HandRank {
            player: d,
            rank: HandRank::SevenPawn { score: (2 * piece_points(q1)) as u8 },
        }),
        hs[dir_index(d)].count_of(Piece::Pawn) == 6 && hs[dir_index(d)].count_of(q1) == 2
            ==> deal_event_of(hs) == (DealEvent::HandRank {
            player: d,
            rank: HandRank::SixPawn { score: (2 * piece_points(q1)) as u8 },
        }),
        hs[dir_index(d)].count_of(Piece::Pawn) == 6 && q1 != q2 && hs[dir_index(d)].count_of(q1)
            == 1 && hs[dir_index(d)].count_of(q2) == 1 ==> deal_event_of(hs) == (
        DealEvent::HandRank {
            player: d,
            rank: HandRank::SixPawn {
                score: (if piece_points(q1) > piece_points(q2) {
                    piece_points(q1)
                } else {
                    piece_points(q2)
                }) as u8,
            },
        }),
{
    let h = hs[dir_index(d)];
    lemma_pawn_hands_rank(hs, d);
    lemma_flat_occurrences(h, Piece::Pawn);
    lemma_expand_occurrences(h.counts_fn(), 7, q1);
    lemma_expand_occurrences(h.counts_fn(), 7, q2);
    let np = h.non_pawns();
    assert(piece_index(q1) < 7 && piece_index(q2) < 7);
    assert(occurrences(np, q1) == h.count_of(q1));
    assert(occurrences(np, q2) == h.count_of(q2));
    if h.count_of(Piece::Pawn) == 7 && h.count_of(q1) == 1 {
        assert(np.len() == 1);
        assert(occurrences(np.drop_last(), q1) == 0);
        assert(np[0] == q1);
    }
    if h.count_of(Piece::Pawn) == 6 {
        assert(np.len() == 2);
        assert(occurrences(np.drop_last().drop_last(), q1) == 0);
        assert(occurrences(np.drop_last().drop_last(), q2) == 0);
        assert(np.drop_last().last() == np[0]);
        assert(np.last() == np[1]);
        assert(occurrences(np.drop_last(), q1) == if np[0] == q1 {
            1nat
        } else {
            0nat
        });
        assert(occurrences(np.drop_last(), q2) == if np[0] == q2 {
            1nat
        } else {
            0nat
        });
        if h.count_of(q1) == 2 {
            assert(np[0] == q1 && np[1] == q1);
        }
        if q1 != q2 && h.count_of(q1) == 1 && h.count_of(q2) == 1 {
            assert((np[0] == q1 && np[1] == q2) || (np[0] == q2 && np[1] == q1));
        }
    }
}

/// Returns the standard set as a list, sorted by kind: each `(piece, count)`
/// entry of `DEFAULT_PIECES` in turn, repeated `count` times.
pub fn standard_set() -> (v: Vec<Piece>)
    ensures
        v@ == full_set(),
        v@.len() == 32,
{
    let mut expanded: Vec<Piece> = Vec::new();
    let mut k: usize = 0;
    while k < 8
        invariant
            k <= 8,
            expanded@ == expand_upto(|p: Piece| set_count(p), k as nat),
        decreases 8 - k,
    {
        let entry = DEFAULT_PIECES[k];
        let piece = entry.0;
        let count = entry.1;
        assert(piece == piece_at(k as int) && count == set_count(piece));
        let ghost base = expanded@;
        let mut j: u8 = 0;
        while j < count
            invariant
                j <= count,
                expanded@ == base + copies(piece, j as nat),
            decreases count - j,
        {
            expanded.push(piece);
            j = j + 1;
            assert(expanded@ =~= base + copies(piece, j as nat));
        }
        k = k + 1;
    }
    proof {
        lemma_expand_len(|p: Piece| set_count(p), 8);
        reveal_with_fuel(sum_upto, 9);
    }
    expanded
}

/// Cuts a list of 32 pieces into four hands of eight, in order: the first
/// eight pieces make the first hand, the next eight the second, and so on.
pub fn cut_into_hands(expanded: &Vec<Piece>) -> (hands: Vec<Vec<Piece>>)
    requires
        expanded@.len() == 32,
    ensures
        hands@.len() == 4,
        forall|i: int|
            0 <= i < 4 ==> #[trigger] hands@[i]@ == expanded@.subrange(8 * i, 8 * i + 8),
{
    let mut hands: Vec<Vec<Piece>> = Vec::new();
    let mut c: usize = 0;
    while c < 4
        invariant
            c <= 4,
            expanded@.len() == 32,
            hands@.len() == c,
            forall|i: int|
                0 <= i < c ==> #[trigger] hands@[i]@ == expanded@.subrange(8 * i, 8 * i + 8),
        decreases 4 - c,
    {
        let mut chunk: Vec<Piece> = Vec::new();
        let mut j: usize = 0;
        while j < 8
            invariant
                j <= 8,
                c < 4,
                expanded@.len() == 32,
                chunk@ == expanded@.subrange(8 * c, 8 * c + j),
            decreases 8 - j,
        {
            chunk.push(expanded[8 * c + j]);
            j = j + 1;
            assert(chunk@ =~= expanded@.subrange(8 * c, 8 * c + j));
        }
        hands.push(chunk);
        c = c + 1;
    }
    hands
}

/// Whether `hands` are `s` cut into four hands of eight, in order.
pub open spec fn cut_of(hands: Seq<Vec<Piece>>, s: Seq<Piece>) -> bool {
    &&& hands.len() == 4
    &&& forall|i: int| 0 <= i < 4 ==> #[trigger] hands[i]@ == s.subrange(8 * i, 8 * i + 8)
}

/// Shuffles the standard set with `rng` and cuts it into four hands of eight
/// pieces, in order. Which permutation the shuffle picks depends on the
/// generator; whatever it is, the hands are the cut of a permutation of the
/// standard set, and so a valid deal.
pub(crate) fn shuffled_deal(rng: &mut StdRng) -> (hands: Vec<Vec<Piece>>)
    ensures
        valid_deal(hands@),
        exists|s: Seq<Piece>| s.to_multiset() == full_set().to_multiset() && cut_of(hands@, s),
{
    let mut expanded = standard_set();
    let ghost unshuffled = expanded@;
    shuffle_pieces(&mut expanded, rng);
    let hands = cut_into_hands(&expanded);
    proof {
        let s = expanded@;
        assert(s =~= hands@[0]@ + hands@[1]@ + hands@[2]@ + hands@[3]@);
        assert forall|p: Piece| #[trigger]
            set_count(p) == occurrences(hands@[0]@, p) + occurrences(hands@[1]@, p)
                + occurrences(hands@[2]@, p) + occurrences(hands@[3]@, p) by {
            lemma_full_set(p);
            lemma_occurrences_multiset(unshuffled, p);
            lemma_occurrences_multiset(s, p);
            lemma_occurrences_concat(hands@[0]@ + hands@[1]@ + hands@[2]@, hands@[3]@, p);
            lemma_occurrences_concat(hands@[0]@ + hands@[1]@, hands@[2]@, p);
            lemma_occurrences_concat(hands@[0]@, hands@[1]@, p);
        }
        assert(valid_deal(hands@));
        assert(cut_of(hands@, expanded@));
    }
    hands
}

} // verus!
