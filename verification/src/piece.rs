use vstd::multiset::Multiset;
use vstd::prelude::*;

verus! {

/// A shogi piece as used in Goita.
#[derive(Debug, Clone, Copy, PartialEq, Eq, Hash, PartialOrd, Ord, Structural)]
pub enum Piece {
    /// King (王)
    King,
    /// Rook (飛)
    Rook,
    /// Bishop (角)
    Bishop,
    /// Gold General (金)
    Gold,
    /// Silver General (銀)
    Silver,
    /// Knight (馬)
    Knight,
    /// Lance (香)
    Lance,
    /// Pawn (し)
    Pawn,
}

/// The position of a piece kind in the order King, Rook, Bishop, Gold,
/// Silver, Knight, Lance, Pawn.
pub open spec fn piece_index(p: Piece) -> int {
    match p {
        Piece::King => 0,
        Piece::Rook => 1,
        Piece::Bishop => 2,
        Piece::Gold => 3,
        Piece::Silver => 4,
        Piece::Knight => 5,
        Piece::Lance => 6,
        Piece::Pawn => 7,
    }
}

/// The piece kind at a position of the order King, Rook, ..., Pawn.
pub open spec fn piece_at(i: int) -> Piece {
    if i == 0 {
        Piece::King
    } else if i == 1 {
        Piece::Rook
    } else if i == 2 {
        Piece::Bishop
    } else if i == 3 {
        Piece::Gold
    } else if i == 4 {
        Piece::Silver
    } else if i == 5 {
        Piece::Knight
    } else if i == 6 {
        Piece::Lance
    } else {
        Piece::Pawn
    }
}

/// The points a piece is worth.
pub open spec fn piece_points(p: Piece) -> nat {
    match p {
        Piece::King => 50,
        Piece::Rook => 40,
        Piece::Bishop => 40,
        Piece::Gold => 30,
        Piece::Silver => 30,
        Piece::Knight => 20,
        Piece::Lance => 20,
        Piece::Pawn => 10,
    }
}

/// How many pieces of each kind a full set holds (32 pieces in all).
pub open spec fn set_count(p: Piece) -> nat {
    match p {
        Piece::King => 2,
        Piece::Rook => 2,
        Piece::Bishop => 2,
        Piece::Gold => 4,
        Piece::Silver => 4,
        Piece::Knight => 4,
        Piece::Lance => 4,
        Piece::Pawn => 10,
    }
}

pub proof fn lemma_piece_index(p: Piece)
    ensures
        0 <= piece_index(p) < 8,
        piece_at(piece_index(p)) == p,
{
}

impl Piece {
    /// Returns the point value of the piece: King 50, Rook 40, Bishop 40,
    /// Gold 30, Silver 30, Knight 20, Lance 20, Pawn 10.
    pub fn point_value(&self) -> (v: u8)
        ensures
            v == piece_points(*self),
    {
        match self {
            Piece::King => 50,
            Piece::Rook => 40,
            Piece::Bishop => 40,
            Piece::Gold => 30,
            Piece::Silver => 30,
            Piece::Knight => 20,
            Piece::Lance => 20,
            Piece::Pawn => 10,
        }
    }

    /// Returns the position of this kind in the order King, Rook, Bishop,
    /// Gold, Silver, Knight, Lance, Pawn.
    pub fn index(&self) -> (i: usize)
        ensures
            i == piece_index(*self),
    {
        match self {
            Piece::King => 0,
            Piece::Rook => 1,
            Piece::Bishop => 2,
            Piece::Gold => 3,
            Piece::Silver => 4,
            Piece::Knight => 5,
            Piece::Lance => 6,
            Piece::Pawn => 7,
        }
    }

    /// Returns the kind at position `i` of the order King, Rook, ..., Pawn.
    pub fn from_index(i: usize) -> (p: Piece)
        requires
            i < 8,
        ensures
            p == piece_at(i as int),
            piece_index(p) == i,
    {
        if i == 0 {
            Piece::King
        } else if i == 1 {
            Piece::Rook
        } else if i == 2 {
            Piece::Bishop
        } else if i == 3 {
            Piece::Gold
        } else if i == 4 {
            Piece::Silver
        } else if i == 5 {
            Piece::Knight
        } else if i == 6 {
            Piece::Lance
        } else {
            Piece::Pawn
        }
    }
}

/// The standard 32-piece set as `(piece, count)` pairs: King 2, Rook 2,
/// Bishop 2, Gold 4, Silver 4, Knight 4, Lance 4, Pawn 10.
pub const DEFAULT_PIECES: [(Piece, u8); 8] = [
    (Piece::King, 2),
    (Piece::Rook, 2),
    (Piece::Bishop, 2),
    (Piece::Gold, 4),
    (Piece::Silver, 4),
    (Piece::Knight, 4),
    (Piece::Lance, 4),
    (Piece::Pawn, 10),
];

} // verus!

verus! {

/// How many times `p` occurs in `s`.
pub open spec fn occurrences(s: Seq<Piece>, p: Piece) -> nat
    decreases s.len(),
{
    if s.len() == 0 {
        0
    } else {
        occurrences(s.drop_last(), p) + if s.last() == p {
            1nat
        } else {
            0nat
        }
    }
}

/// The number of occurrences of each kind, summed over the eight kinds.
pub open spec fn occurrences_total(s: Seq<Piece>) -> nat {
    occurrences(s, Piece::King) + occurrences(s, Piece::Rook) + occurrences(s, Piece::Bishop)
        + occurrences(s, Piece::Gold) + occurrences(s, Piece::Silver) + occurrences(s, Piece::Knight)
        + occurrences(s, Piece::Lance) + occurrences(s, Piece::Pawn)
}

/// Counting every kind counts every element once.
pub proof fn lemma_occurrences_total(s: Seq<Piece>)
    ensures
        occurrences_total(s) == s.len(),
    decreases s.len(),
{
    if s.len() > 0 {
        lemma_occurrences_total(s.drop_last());
    }
}

/// Occurrences in a concatenation add up.
pub proof fn lemma_occurrences_concat(a: Seq<Piece>, b: Seq<Piece>, p: Piece)
    ensures
        occurrences(a + b, p) == occurrences(a, p) + occurrences(b, p),
    decreases b.len(),
{
    if b.len() == 0 {
        assert(a + b =~= a);
    } else {
        assert((a + b).drop_last() =~= a + b.drop_last());
        lemma_occurrences_concat(a, b.drop_last(), p);
    }
}

/// Occurrences in a prefix one longer.
pub proof fn lemma_occurrences_take(s: Seq<Piece>, i: int, p: Piece)
    requires
        0 <= i < s.len(),
    ensures
        occurrences(s.take(i + 1), p) == occurrences(s.take(i), p) + if s[i] == p {
            1nat
        } else {
            0nat
        },
{
    assert(s.take(i + 1).drop_last() =~= s.take(i));
}

/// `n` copies of `q`.
pub open spec fn copies(q: Piece, n: nat) -> Seq<Piece> {
    Seq::new(n, |i: int| q)
}

/// `n` copies of `q` hold `q` exactly `n` times and nothing else.
pub proof fn lemma_occurrences_copies(q: Piece, n: nat, p: Piece)
    ensures
        occurrences(copies(q, n), p) == if q == p {
            n
        } else {
            0nat
        },
    decreases n,
{
    if n > 0 {
        assert(copies(q, n).drop_last() =~= copies(q, (n - 1) as nat));
        lemma_occurrences_copies(q, (n - 1) as nat, p);
    }
}

} // verus!

verus! {

/// The first `k` kinds (in the order King, Rook, ..., Pawn), each repeated
/// `count` times.
pub open spec fn expand_upto(count: spec_fn(Piece) -> nat, k: nat) -> Seq<Piece>
    decreases k,
{
    if k == 0 {
        Seq::empty()
    } else {
        let q = piece_at(k - 1);
        expand_upto(count, (k - 1) as nat) + copies(q, count(q))
    }
}

/// The sum of `count` over the first `k` kinds.
pub open spec fn sum_upto(count: spec_fn(Piece) -> nat, k: nat) -> nat
    decreases k,
{
    if k == 0 {
        0
    } else {
        sum_upto(count, (k - 1) as nat) + count(piece_at(k - 1))
    }
}

/// The standard 32-piece set, sorted by kind.
pub open spec fn full_set() -> Seq<Piece> {
    expand_upto(|p: Piece| set_count(p), 8)
}

/// Expanding the first `k` kinds holds each of them `count` times.
pub proof fn lemma_expand_occurrences(count: spec_fn(Piece) -> nat, k: nat, p: Piece)
    requires
        k <= 8,
    ensures
        occurrences(expand_upto(count, k), p) == if piece_index(p) < k {
            count(p)
        } else {
            0
        },
    decreases k,
{
    if k > 0 {
        let q = piece_at(k - 1);
        lemma_expand_occurrences(count, (k - 1) as nat, p);
        lemma_occurrences_concat(expand_upto(count, (k - 1) as nat), copies(q, count(q)), p);
        lemma_occurrences_copies(q, count(q), p);
    }
}

/// Expanding the first `k` kinds gives as many pieces as their counts add up to.
pub proof fn lemma_expand_len(count: spec_fn(Piece) -> nat, k: nat)
    ensures
        expand_upto(count, k).len() == sum_upto(count, k),
    decreases k,
{
    if k > 0 {
        lemma_expand_len(count, (k - 1) as nat);
    }
}

/// Counting `p` in a sequence is the multiplicity of `p` in its multiset.
pub proof fn lemma_occurrences_multiset(s: Seq<Piece>, p: Piece)
    ensures
        occurrences(s, p) == s.to_multiset().count(p),
    decreases s.len(),
{
    broadcast use vstd::seq_lib::group_to_multiset_ensures;

    if s.len() == 0 {
        assert(s.to_multiset() =~= Multiset::empty());
    } else {
        lemma_occurrences_multiset(s.drop_last(), p);
        assert(s.drop_last().push(s.last()) =~= s);
    }
}

/// The standard set holds each kind as often as `set_count` says.
pub proof fn lemma_full_set(p: Piece)
    ensures
        occurrences(full_set(), p) == set_count(p),
        full_set().len() == 32,
{
    lemma_expand_occurrences(|q: Piece| set_count(q), 8, p);
    lemma_expand_len(|q: Piece| set_count(q), 8);
    reveal_with_fuel(sum_upto, 9);
}

} // verus!


verus! {

/// Returns how many pieces of kind `p` the standard set holds, as listed in
/// `DEFAULT_PIECES`.
pub fn default_count(p: Piece) -> (n: u8)
    ensures
        n == set_count(p),
{
    let entry = DEFAULT_PIECES[p.index()];
    entry.1
}

} // verus!
