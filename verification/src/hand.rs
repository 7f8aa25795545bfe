use vstd::prelude::*;

use crate::piece::{
    copies, expand_upto, lemma_expand_len, lemma_expand_occurrences, lemma_occurrences_take,
    lemma_occurrences_total, occurrences, piece_at, piece_index, sum_upto, Piece,
};

verus! {

/// A player's hand: how many pieces of each kind the player holds, at most
/// eight pieces in all.
#[derive(Debug, Clone, Copy, PartialEq, Eq)]
pub struct Hand {
    counts: [u8; 8],
}

impl Hand {
    #[verifier::type_invariant]
    spec fn holds_at_most_eight(self) -> bool {
        self.size() <= 8
    }

    /// How many pieces of kind `p` the hand holds.
    pub closed spec fn count_of(self, p: Piece) -> nat {
        self.counts@[piece_index(p)] as nat
    }

    /// How many pieces the hand holds in all.
    pub open spec fn size(self) -> nat {
        self.count_of(Piece::King) + self.count_of(Piece::Rook) + self.count_of(Piece::Bishop)
            + self.count_of(Piece::Gold) + self.count_of(Piece::Silver) + self.count_of(
            Piece::Knight,
        ) + self.count_of(Piece::Lance) + self.count_of(Piece::Pawn)
    }

    /// The hand's count of each kind, as a function.
    pub open spec fn counts_fn(self) -> spec_fn(Piece) -> nat {
        |p: Piece| self.count_of(p)
    }

    /// All the hand's pieces, sorted by kind.
    pub open spec fn flat(self) -> Seq<Piece> {
        expand_upto(self.counts_fn(), 8)
    }

    /// The hand's pieces other than pawns, sorted by kind.
    pub open spec fn non_pawns(self) -> Seq<Piece> {
        expand_upto(self.counts_fn(), 7)
    }

    /// The `(kind, count)` pairs of the first `k` kinds that the hand holds at
    /// least once, in kind order.
    pub open spec fn entries_upto(self, k: nat) -> Seq<(Piece, u8)>
        decreases k,
    {
        if k == 0 {
            Seq::empty()
        } else {
            let q = piece_at(k - 1);
            let rest = self.entries_upto((k - 1) as nat);
            if self.count_of(q) > 0 {
                rest.push((q, self.count_of(q) as u8))
            } else {
                rest
            }
        }
    }

    /// The `(kind, count)` pairs of the kinds the hand holds, in kind order.
    pub open spec fn entries(self) -> Seq<(Piece, u8)> {
        self.entries_upto(8)
    }

    /// Creates an empty hand.
    pub fn new() -> (h: Self)
        ensures
            forall|p: Piece| #[trigger] h.count_of(p) == 0,
    {
        Hand { counts: [0u8; 8] }
    }

    /// Creates a hand holding exactly the given pieces. A hand holds at most
    /// eight pieces, so the call requires `pieces.len() <= 8`.
    pub fn new_with_pieces(pieces: Vec<Piece>) -> (h: Self)
        requires
            pieces.len() <= 8,
        ensures
            forall|p: Piece| #[trigger] h.count_of(p) == occurrences(pieces@, p),
            h.size() == pieces.len(),
    {
        let mut h = Hand::new();
        let mut i: usize = 0;
        while i < pieces.len()
            invariant
                i <= pieces.len() <= 8,
                forall|p: Piece| #[trigger] h.count_of(p) == occurrences(pieces@.take(i as int), p),
            decreases pieces.len() - i,
        {
            proof {
                lemma_occurrences_total(pieces@.take(i as int));
                assert forall|p: Piece| #[trigger]
                    occurrences(pieces@.take(i + 1), p) == occurrences(pieces@.take(i as int), p)
                        + if pieces@[i as int] == p {
                        1nat
                    } else {
                        0nat
                    } by {
                    lemma_occurrences_take(pieces@, i as int, p);
                }
            }
            h.add(pieces[i]);
            i = i + 1;
        }
        proof {
            assert(pieces@.take(pieces.len() as int) =~= pieces@);
            lemma_occurrences_total(pieces@);
        }
        h
    }

    /// Returns the number of pieces in the hand, which is never more than
    /// eight.
    pub fn len(&self) -> (n: u8)
        ensures
            n == self.size(),
            n <= 8,
    {
        proof {
            use_type_invariant(self);
        }
        self.counts[0] + self.counts[1] + self.counts[2] + self.counts[3] + self.counts[4]
            + self.counts[5] + self.counts[6] + self.counts[7]
    }

    /// Returns `true` if the hand holds no pieces.
    pub fn is_empty(&self) -> (b: bool)
        ensures
            b == (self.size() == 0),
    {
        self.len() == 0
    }

    /// Adds one `piece` to the hand. A hand holds at most eight pieces, so
    /// the call requires that it holds fewer than eight.
    pub fn add(&mut self, piece: Piece)
        requires
            old(self).size() < 8,
        ensures
            final(self).count_of(piece) == old(self).count_of(piece) + 1,
            forall|q: Piece| q != piece ==> #[trigger] final(self).count_of(q) == old(self).count_of(q),
            final(self).size() == old(self).size() + 1,
    {
        let i = piece.index();
        let c = self.counts[i];
        self.counts[i] = c + 1;
    }

    /// Removes one `piece` from the hand, which must hold at least one.
    pub fn remove(&mut self, piece: Piece)
        requires
            old(self).count_of(piece) > 0,
        ensures
            final(self).count_of(piece) == old(self).count_of(piece) - 1,
            forall|q: Piece| q != piece ==> #[trigger] final(self).count_of(q) == old(self).count_of(q),
            final(self).size() == old(self).size() - 1,
    {
        proof {
            use_type_invariant(&*self);
        }
        let i = piece.index();
        let c = self.counts[i];
        self.counts[i] = c - 1;
    }

    /// Returns how many pieces of kind `piece` the hand holds.
    pub fn count(&self, piece: Piece) -> (n: u8)
        ensures
            n == self.count_of(piece),
    {
        self.counts[piece.index()]
    }

    /// Returns `true` if the hand holds at least one `piece`.
    pub fn contains(&self, piece: Piece) -> (b: bool)
        ensures
            b == (self.count_of(piece) > 0),
    {
        self.count(piece) > 0
    }

    /// Returns the `(piece, count)` pairs of the kinds held at least once,
    /// in kind order.
    pub fn iter(&self) -> (r: Vec<(Piece, u8)>)
        ensures
            r@ == self.entries(),
    {
        let mut r: Vec<(Piece, u8)> = Vec::new();
        let mut k: usize = 0;
        while k < 8
            invariant
                k <= 8,
                r@ == self.entries_upto(k as nat),
            decreases 8 - k,
        {
            let q = Piece::from_index(k);
            let c = self.counts[k];
            if c > 0 {
                r.push((q, c));
            }
            k = k + 1;
        }
        r
    }

    /// Returns all pieces in the hand as a flat list sorted by kind; a kind
    /// held several times appears that many times.
    pub fn pieces(&self) -> (r: Vec<Piece>)
        ensures
            r@ == self.flat(),
    {
        let mut r: Vec<Piece> = Vec::new();
        let mut k: usize = 0;
        while k < 8
            invariant
                k <= 8,
                r@ == expand_upto(self.counts_fn(), k as nat),
            decreases 8 - k,
        {
            let q = Piece::from_index(k);
            let c = self.counts[k];
            let ghost base = r@;
            let mut j: u8 = 0;
            while j < c
                invariant
                    j <= c,
                    c == self.count_of(q),
                    r@ == base + copies(q, j as nat),
                decreases c - j,
            {
                r.push(q);
                j = j + 1;
                assert(r@ =~= base + copies(q, j as nat));
            }
            k = k + 1;
        }
        r
    }
}

impl Default for Hand {
    /// An empty hand, as [`Hand::new`].
    fn default() -> (h: Self)
        ensures
            forall|p: Piece| #[trigger] h.count_of(p) == 0,
    {
        Hand::new()
    }
}

/// Counting a kind among a hand's sorted pieces gives the hand's count of
/// it; the sorted pieces are the non-pawns followed by the pawns.
pub proof fn lemma_flat_occurrences(h: Hand, p: Piece)
    ensures
        occurrences(h.flat(), p) == h.count_of(p),
        h.flat().len() == h.size(),
        h.non_pawns().len() + h.count_of(Piece::Pawn) == h.size(),
        h.flat() == h.non_pawns() + copies(Piece::Pawn, h.count_of(Piece::Pawn)),
{
    lemma_expand_occurrences(h.counts_fn(), 8, p);
    lemma_expand_len(h.counts_fn(), 8);
    lemma_expand_len(h.counts_fn(), 7);
    reveal_with_fuel(sum_upto, 9);
}

} // verus!

verus! {

/// Every piece among the first `k` kinds' expansion is of a kind before `k`,
/// and the expansion is sorted by kind.
proof fn lemma_expand_sorted(count: spec_fn(Piece) -> nat, k: nat)
    requires
        k <= 8,
    ensures
        forall|i: int|
            0 <= i < expand_upto(count, k).len() ==> piece_index(
                #[trigger] expand_upto(count, k)[i],
            ) < k,
        forall|i: int, j: int|
            0 <= i <= j < expand_upto(count, k).len() ==> piece_index(
                #[trigger] expand_upto(count, k)[i],
            ) <= piece_index(#[trigger] expand_upto(count, k)[j]),
    decreases k,
{
    if k > 0 {
        lemma_expand_sorted(count, (k - 1) as nat);
        let q = piece_at(k - 1);
        let prev = expand_upto(count, (k - 1) as nat);
        let s = expand_upto(count, k);
        assert(s == prev + copies(q, count(q)));
        assert forall|i: int| 0 <= i < s.len() implies piece_index(#[trigger] s[i]) < k by {
            if i >= prev.len() {
                assert(s[i] == q);
            } else {
                assert(s[i] == prev[i]);
            }
        }
        assert forall|i: int, j: int|
            0 <= i <= j < s.len() implies piece_index(#[trigger] s[i]) <= piece_index(
                #[trigger] s[j],
            ) by {
            if j >= prev.len() {
                assert(s[j] == q);
                if i < prev.len() {
                    assert(s[i] == prev[i]);
                }
            } else {
                assert(s[i] == prev[i]);
                assert(s[j] == prev[j]);
            }
        }
    }
}

/// The flat list of a hand is sorted by kind (King first, Pawn last), holds
/// every kind exactly as often as the hand does, and so has as many pieces
/// as the hand.
pub proof fn lemma_pieces_sorted(h: Hand)
    ensures
        forall|i: int, j: int|
            0 <= i <= j < h.flat().len() ==> piece_index(#[trigger] h.flat()[i]) <= piece_index(
                #[trigger] h.flat()[j],
            ),
        forall|p: Piece| #[trigger] occurrences(h.flat(), p) == h.count_of(p),
        h.flat().len() == h.size(),
{
    lemma_expand_sorted(h.counts_fn(), 8);
    assert forall|p: Piece| #[trigger] occurrences(h.flat(), p) == h.count_of(p) by {
        lemma_flat_occurrences(h, p);
    }
    lemma_flat_occurrences(h, Piece::Pawn);
}

/// Rebuilding a hand from its flat list of pieces gives back the same counts:
/// if `rebuilt` holds each kind as often as `h.flat()` lists it (which is
/// what `Hand::new_with_pieces(h.pieces())` ensures), it agrees with `h`.
pub proof fn lemma_pieces_round_trip(h: Hand, rebuilt: Hand)
    requires
        forall|p: Piece| #[trigger] rebuilt.count_of(p) == occurrences(h.flat(), p),
    ensures
        forall|p: Piece| #[trigger] rebuilt.count_of(p) == h.count_of(p),
        rebuilt.size() == h.size(),
{
    assert forall|p: Piece| #[trigger] rebuilt.count_of(p) == h.count_of(p) by {
        lemma_flat_occurrences(h, p);
    }
}

/// Removing a piece undoes adding it: if `added` is `h` after
/// `add(piece)` and `removed` is `added` after `remove(piece)`, every count
/// is back to what it was.
pub proof fn lemma_remove_undoes_add(h: Hand, added: Hand, removed: Hand, piece: Piece)
    requires
        added.count_of(piece) == h.count_of(piece) + 1,
        forall|q: Piece| q != piece ==> #[trigger] added.count_of(q) == h.count_of(q),
        removed.count_of(piece) == added.count_of(piece) - 1,
        forall|q: Piece| q != piece ==> #[trigger] removed.count_of(q) == added.count_of(q),
    ensures
        forall|q: Piece| #[trigger] removed.count_of(q) == h.count_of(q),
        removed.size() == h.size(),
{
    assert forall|q: Piece| #[trigger] removed.count_of(q) == h.count_of(q) by {
        if q != piece {
            assert(added.count_of(q) == h.count_of(q));
        }
    }
}

/// A hand of eight pieces holding seven pawns has exactly one other piece,
/// and one holding six pawns has exactly two: the deal check relies on it.
pub proof fn lemma_other_pieces_of_pawn_hands(h: Hand)
    requires
        h.size() == 8,
    ensures
        h.count_of(Piece::Pawn) == 7 ==> h.non_pawns().len() == 1,
        h.count_of(Piece::Pawn) == 6 ==> h.non_pawns().len() == 2,
        forall|i: int|
            0 <= i < h.non_pawns().len() ==> #[trigger] h.non_pawns()[i] != Piece::Pawn,
{
    lemma_flat_occurrences(h, Piece::Pawn);
    lemma_expand_sorted(h.counts_fn(), 7);
}

} // verus!

verus! {

/// The counts of a list of `(kind, count)` pairs, added up.
pub open spec fn entries_total(s: Seq<(Piece, u8)>) -> nat
    decreases s.len(),
{
    if s.len() == 0 {
        0
    } else {
        entries_total(s.drop_last()) + s.last().1 as nat
    }
}

#[verifier::rlimit(40)]
proof fn lemma_entries_upto(h: Hand, k: nat)
    requires
        k <= 8,
    ensures
        forall|i: int|
            0 <= i < h.entries_upto(k).len() ==> {
                &&& piece_index(#[trigger] h.entries_upto(k)[i].0) < k
                &&& h.entries_upto(k)[i].1 > 0
                &&& h.entries_upto(k)[i].1 == h.count_of(h.entries_upto(k)[i].0)
            },
        forall|i: int, j: int|
            0 <= i < j < h.entries_upto(k).len() ==> piece_index(
                #[trigger] h.entries_upto(k)[i].0,
            ) < piece_index(#[trigger] h.entries_upto(k)[j].0),
        forall|p: Piece|
            piece_index(p) < k && #[trigger] h.count_of(p) > 0 ==> exists|i: int|
                0 <= i < h.entries_upto(k).len() && #[trigger] h.entries_upto(k)[i].0 == p,
        entries_total(h.entries_upto(k)) == sum_upto(h.counts_fn(), k),
    decreases k,
{
    if k > 0 {
        lemma_entries_upto(h, (k - 1) as nat);
        let q = piece_at(k - 1);
        let prev = h.entries_upto((k - 1) as nat);
        let cur = h.entries_upto(k);
        assert(h.counts_fn()(q) == h.count_of(q));
        assert(sum_upto(h.counts_fn(), k) == sum_upto(h.counts_fn(), (k - 1) as nat) + h.count_of(
            q,
        ));
        lemma_piece_index_at(q);
        if h.count_of(q) > 0 {
            assert(cur == prev.push((q, h.count_of(q) as u8)));
            assert(cur.drop_last() == prev);
            assert(h.count_of(q) <= 255);
            assert(cur.last().1 as nat == h.count_of(q));
            assert(entries_total(cur) == entries_total(prev) + h.count_of(q));
            assert forall|i: int|
                0 <= i < cur.len() implies {
                    &&& piece_index(#[trigger] cur[i].0) < k
                    &&& cur[i].1 > 0
                    &&& cur[i].1 == h.count_of(cur[i].0)
                } by {
                if i < prev.len() {
                    assert(cur[i] == prev[i]);
                }
            }
            assert forall|i: int, j: int|
                0 <= i < j < cur.len() implies piece_index(#[trigger] cur[i].0) < piece_index(
                    #[trigger] cur[j].0,
                ) by {
                assert(cur[i] == prev[i]);
                if j < prev.len() {
                    assert(cur[j] == prev[j]);
                }
            }
            assert forall|p: Piece|
                piece_index(p) < k && #[trigger] h.count_of(p) > 0 implies exists|i: int|
                    0 <= i < cur.len() && #[trigger] cur[i].0 == p by {
                if piece_index(p) < k - 1 {
                    let i = choose|i: int| 0 <= i < prev.len() && #[trigger] prev[i].0 == p;
                    assert(cur[i] == prev[i]);
                } else {
                    lemma_piece_index_at(p);
                    assert(cur[prev.len() as int].0 == p);
                }
            }
        } else {
            assert(cur == prev);
            assert(entries_total(cur) == entries_total(prev));
            assert forall|p: Piece|
                piece_index(p) < k && #[trigger] h.count_of(p) > 0 implies exists|i: int|
                    0 <= i < cur.len() && #[trigger] cur[i].0 == p by {
                if piece_index(p) == k - 1 {
                    lemma_piece_index_at(p);
                }
            }
        }
    }
}

proof fn lemma_piece_index_at(p: Piece)
    ensures
        piece_at(piece_index(p)) == p,
{
}

/// `iter` lists each kind the hand holds exactly once, in kind order, with
/// its count; it lists no kind the hand does not hold; and the listed counts
/// add up to the number of pieces in the hand.
pub proof fn lemma_iter_lists_held_kinds(h: Hand)
    ensures
        forall|i: int|
            0 <= i < h.entries().len() ==> #[trigger] h.entries()[i].1 == h.count_of(
                h.entries()[i].0,
            ) && h.entries()[i].1 > 0,
        forall|i: int, j: int|
            0 <= i < j < h.entries().len() ==> #[trigger] h.entries()[i].0 != #[trigger] h.entries()[j].0,
        forall|p: Piece|
            #[trigger] h.count_of(p) > 0 ==> exists|i: int|
                0 <= i < h.entries().len() && #[trigger] h.entries()[i].0 == p,
        entries_total(h.entries()) == h.size(),
{
    lemma_entries_upto(h, 8);
    reveal_with_fuel(sum_upto, 9);
    let e = h.entries_upto(8);
    assert(h.entries() == e);
    assert forall|p: Piece| #[trigger] h.count_of(p) > 0 implies exists|i: int|
        0 <= i < e.len() && #[trigger] e[i].0 == p by {
        assert(piece_index(p) < 8);
    }
}

/// Taking a pair from a hand leaves two pieces fewer.
pub proof fn lemma_size_after_pair(before: Hand, after: Hand, top: Piece, bottom: Piece)
    requires
        forall|p: Piece|
            #[trigger] after.count_of(p) == before.count_of(p) - (if p == top {
                1int
            } else {
                0int
            }) - (if p == bottom {
                1int
            } else {
                0int
            }),
    ensures
        after.size() == before.size() - 2,
{
    assert(after.count_of(Piece::King) == before.count_of(Piece::King) - (if Piece::King == top { 1int } else { 0int }) - (if Piece::King == bottom { 1int } else { 0int }));
}

} // verus!
