use vstd::prelude::*;
use vstd::string::StrSliceExecFns;

use crate::piece::Piece;

verus! {

/// The one-letter code of a piece: k King, r Rook, b Bishop, g Gold,
/// s Silver, n Knight, l Lance, p Pawn.
pub open spec fn piece_letter(p: Piece) -> char {
    match p {
        Piece::King => 'k',
        Piece::Rook => 'r',
        Piece::Bishop => 'b',
        Piece::Gold => 'g',
        Piece::Silver => 's',
        Piece::Knight => 'n',
        Piece::Lance => 'l',
        Piece::Pawn => 'p',
    }
}

/// The piece a one-letter code names, if it names one.
pub open spec fn piece_for_letter(c: char) -> Option<Piece> {
    if c == 'k' {
        Some(Piece::King)
    } else if c == 'r' {
        Some(Piece::Rook)
    } else if c == 'b' {
        Some(Piece::Bishop)
    } else if c == 'g' {
        Some(Piece::Gold)
    } else if c == 's' {
        Some(Piece::Silver)
    } else if c == 'n' {
        Some(Piece::Knight)
    } else if c == 'l' {
        Some(Piece::Lance)
    } else if c == 'p' {
        Some(Piece::Pawn)
    } else {
        None
    }
}

/// The piece a text names: exactly one letter that is a piece code.
pub open spec fn piece_for_code(s: Seq<char>) -> Option<Piece> {
    if s.len() == 1 {
        piece_for_letter(s[0])
    } else {
        None
    }
}

/// Returns the one-letter code of `piece` (see `piece_letter`).
pub fn convert_piece_to_str(piece: Piece) -> (s: &'static str)
    ensures
        s@ == seq![piece_letter(piece)],
{
    proof {
        reveal_strlit("k");
        reveal_strlit("r");
        reveal_strlit("b");
        reveal_strlit("g");
        reveal_strlit("s");
        reveal_strlit("n");
        reveal_strlit("l");
        reveal_strlit("p");
    }
    match piece {
        Piece::King => "k",
        Piece::Rook => "r",
        Piece::Bishop => "b",
        Piece::Gold => "g",
        Piece::Silver => "s",
        Piece::Knight => "n",
        Piece::Lance => "l",
        Piece::Pawn => "p",
    }
}

/// Returns the piece named by a one-letter code, or `None` when `s` is not
/// exactly one of the codes k, r, b, g, s, n, l, p.
pub fn convert_str_to_piece(s: &str) -> (p: Option<Piece>)
    ensures
        p == piece_for_code(s@),
{
    if s.unicode_len() != 1 {
        return None;
    }
    let c = s.get_char(0);
    if c == 'k' {
        Some(Piece::King)
    } else if c == 'r' {
        Some(Piece::Rook)
    } else if c == 'b' {
        Some(Piece::Bishop)
    } else if c == 'g' {
        Some(Piece::Gold)
    } else if c == 's' {
        Some(Piece::Silver)
    } else if c == 'n' {
        Some(Piece::Knight)
    } else if c == 'l' {
        Some(Piece::Lance)
    } else if c == 'p' {
        Some(Piece::Pawn)
    } else {
        None
    }
}

/// Reading back the code of a piece gives the piece, and different pieces
/// have different codes.
pub proof fn lemma_piece_code_round_trip(p: Piece, q: Piece)
    ensures
        piece_for_code(seq![piece_letter(p)]) == Some(p),
        p != q ==> piece_letter(p) != piece_letter(q),
{
}

} // verus!
