use vstd::prelude::*;
use vstd::std_specs::convert::FromSpecImpl;

use crate::piece::Piece;

verus! {

/// A seat at the table; each direction is one of the four players.
#[derive(Debug, Clone, Copy, PartialEq, Eq, Hash, Structural)]
pub enum BoardDirection {
    /// Player 1
    North,
    /// Player 2
    East,
    /// Player 3
    South,
    /// Player 4
    West,
}

/// The numeric seat of a direction: North 0, East 1, South 2, West 3.
pub open spec fn dir_index(d: BoardDirection) -> int {
    match d {
        BoardDirection::North => 0,
        BoardDirection::East => 1,
        BoardDirection::South => 2,
        BoardDirection::West => 3,
    }
}

/// The direction sitting at seat `i % 4`.
pub open spec fn dir_at(i: int) -> BoardDirection {
    let r = i % 4;
    if r == 0 {
        BoardDirection::North
    } else if r == 1 {
        BoardDirection::East
    } else if r == 2 {
        BoardDirection::South
    } else {
        BoardDirection::West
    }
}

/// The next seat clockwise: North, East, South, West, then North again.
pub open spec fn dir_next(d: BoardDirection) -> BoardDirection {
    match d {
        BoardDirection::North => BoardDirection::East,
        BoardDirection::East => BoardDirection::South,
        BoardDirection::South => BoardDirection::West,
        BoardDirection::West => BoardDirection::North,
    }
}

/// The team a seat belongs to: North and South together, East and West together.
pub open spec fn team_of(d: BoardDirection) -> Team {
    match d {
        BoardDirection::North | BoardDirection::South => Team::NorthSouth,
        BoardDirection::East | BoardDirection::West => Team::EastWest,
    }
}

impl BoardDirection {
    /// Returns the next clockwise direction: North -> East -> South -> West -> North.
    pub fn next(self) -> (n: Self)
        ensures
            n == dir_next(self),
            dir_index(n) == (dir_index(self) + 1) % 4,
    {
        match self {
            BoardDirection::North => BoardDirection::East,
            BoardDirection::East => BoardDirection::South,
            BoardDirection::South => BoardDirection::West,
            BoardDirection::West => BoardDirection::North,
        }
    }

    /// Returns the numeric seat of this direction (North 0 ... West 3).
    pub fn index(self) -> (i: usize)
        ensures
            i == dir_index(self),
    {
        match self {
            BoardDirection::North => 0,
            BoardDirection::East => 1,
            BoardDirection::South => 2,
            BoardDirection::West => 3,
        }
    }
}

impl From<BoardDirection> for usize {
    /// Converts a direction into its seat: North 0, East 1, South 2, West 3.
    fn from(d: BoardDirection) -> (i: usize) {
        d.index()
    }
}

impl FromSpecImpl<BoardDirection> for usize {
    open spec fn obeys_from_spec() -> bool {
        true
    }

    open spec fn from_spec(d: BoardDirection) -> usize {
        dir_index(d) as usize
    }
}

impl From<u8> for BoardDirection {
    /// Converts `value % 4` into a direction: 0 North, 1 East, 2 South, 3 West.
    fn from(value: u8) -> (d: BoardDirection) {
        let r = value % 4;
        if r == 0 {
            BoardDirection::North
        } else if r == 1 {
            BoardDirection::East
        } else if r == 2 {
            BoardDirection::South
        } else {
            BoardDirection::West
        }
    }
}

impl FromSpecImpl<u8> for BoardDirection {
    open spec fn obeys_from_spec() -> bool {
        true
    }

    open spec fn from_spec(value: u8) -> BoardDirection {
        dir_at(value as int)
    }
}

/// What a player does on their turn.
#[derive(Debug, Clone, Copy, PartialEq, Eq, Hash, Structural)]
pub enum PlayerAction {
    /// Skip the turn without placing any pieces.
    Pass,
    /// Place two pieces on the board in order: `top` then `bottom`.
    Place { top: Piece, bottom: Piece },
}

/// The two teams of a four-player game.
#[derive(Debug, Clone, Copy, PartialEq, Eq, Hash, Structural)]
pub enum Team {
    /// North and South.
    NorthSouth,
    /// East and West.
    EastWest,
}

impl From<BoardDirection> for Team {
    /// The team of a seat: North and South form one team, East and West the other.
    fn from(d: BoardDirection) -> (t: Team) {
        match d {
            BoardDirection::North | BoardDirection::South => Team::NorthSouth,
            BoardDirection::East | BoardDirection::West => Team::EastWest,
        }
    }
}

impl FromSpecImpl<BoardDirection> for Team {
    open spec fn obeys_from_spec() -> bool {
        true
    }

    open spec fn from_spec(d: BoardDirection) -> Team {
        team_of(d)
    }
}

/// A piece on the board together with whether it lies face up (visible to
/// everyone) or face down (hidden).
#[derive(Debug, Clone, Copy, PartialEq, Eq, Hash, Structural)]
pub enum PieceWithFacing {
    /// The piece is face up and visible to all players.
    FaceUp(Piece),
    /// The piece is face down and hidden from all players.
    FaceDown(Piece),
}

/// The piece underneath a facing, whichever way it lies.
pub open spec fn underlying(pwf: PieceWithFacing) -> Piece {
    match pwf {
        PieceWithFacing::FaceUp(p) => p,
        PieceWithFacing::FaceDown(p) => p,
    }
}

impl From<PieceWithFacing> for Piece {
    /// The underlying piece, ignoring whether it faces up or down.
    fn from(pwf: PieceWithFacing) -> (p: Piece) {
        match pwf {
            PieceWithFacing::FaceUp(p) => p,
            PieceWithFacing::FaceDown(p) => p,
        }
    }
}

impl FromSpecImpl<PieceWithFacing> for Piece {
    open spec fn obeys_from_spec() -> bool {
        true
    }

    open spec fn from_spec(pwf: PieceWithFacing) -> Piece {
        underlying(pwf)
    }
}

/// The pieces each player has placed on the board, in the order they were
/// placed, each with its facing.
#[derive(Debug, Clone, PartialEq)]
pub struct Board {
    north: Vec<PieceWithFacing>,
    east: Vec<PieceWithFacing>,
    south: Vec<PieceWithFacing>,
    west: Vec<PieceWithFacing>,
}

/// Copies a list of placed pieces element by element.
fn copy_pieces(v: &Vec<PieceWithFacing>) -> (r: Vec<PieceWithFacing>)
    ensures
        r@ == v@,
{
    let mut r: Vec<PieceWithFacing> = Vec::new();
    let mut i: usize = 0;
    while i < v.len()
        invariant
            i <= v.len(),
            r@ == v@.take(i as int),
        decreases v.len() - i,
    {
        r.push(v[i]);
        i = i + 1;
        assert(r@ =~= v@.take(i as int));
    }
    assert(v@.take(v.len() as int) =~= v@);
    r
}

/// Appends every element of `src` to `dst`.
fn append_pieces(dst: &mut Vec<PieceWithFacing>, src: &Vec<PieceWithFacing>)
    ensures
        final(dst)@ == old(dst)@ + src@,
{
    let mut i: usize = 0;
    while i < src.len()
        invariant
            i <= src.len(),
            dst@ == old(dst)@ + src@.take(i as int),
        decreases src.len() - i,
    {
        dst.push(src[i]);
        i = i + 1;
        assert(dst@ =~= old(dst)@ + src@.take(i as int));
    }
    assert(src@.take(src.len() as int) =~= src@);
}

impl Board {
    /// The pieces placed so far by the player at `d`, oldest first.
    pub closed spec fn placed(self, d: BoardDirection) -> Seq<PieceWithFacing> {
        match d {
            BoardDirection::North => self.north@,
            BoardDirection::East => self.east@,
            BoardDirection::South => self.south@,
            BoardDirection::West => self.west@,
        }
    }

    /// Every placed piece: North's, then East's, then South's, then West's.
    pub open spec fn all_placed(self) -> Seq<PieceWithFacing> {
        self.placed(BoardDirection::North) + self.placed(BoardDirection::East)
            + self.placed(BoardDirection::South) + self.placed(BoardDirection::West)
    }

    /// Creates an empty board.
    pub fn new() -> (b: Self)
        ensures
            forall|d: BoardDirection| #[trigger] b.placed(d) == Seq::<PieceWithFacing>::empty(),
    {
        Board { north: Vec::new(), east: Vec::new(), south: Vec::new(), west: Vec::new() }
    }

    /// Returns the pieces placed by the player at `direction`, oldest first
    /// (empty if that player has placed nothing).
    pub fn get_pieces(&self, direction: BoardDirection) -> (r: Vec<PieceWithFacing>)
        ensures
            r@ == self.placed(direction),
    {
        match direction {
            BoardDirection::North => copy_pieces(&self.north),
            BoardDirection::East => copy_pieces(&self.east),
            BoardDirection::South => copy_pieces(&self.south),
            BoardDirection::West => copy_pieces(&self.west),
        }
    }

    /// Returns the number of pieces placed by the player at `direction`.
    pub fn count_pieces(&self, direction: BoardDirection) -> (n: usize)
        ensures
            n == self.placed(direction).len(),
    {
        match direction {
            BoardDirection::North => self.north.len(),
            BoardDirection::East => self.east.len(),
            BoardDirection::South => self.south.len(),
            BoardDirection::West => self.west.len(),
        }
    }

    /// Returns every piece on the board with its facing: North's pieces,
    /// then East's, South's and West's, each in the order placed.
    pub fn get_all_pieces(&self) -> (r: Vec<PieceWithFacing>)
        ensures
            r@ == self.all_placed(),
    {
        let mut r = copy_pieces(&self.north);
        append_pieces(&mut r, &self.east);
        append_pieces(&mut r, &self.south);
        append_pieces(&mut r, &self.west);
        r
    }

    /// Places two pieces for `direction`: `top_piece` as given, then
    /// `bottom_piece` face up. A player holds at most 8 pieces on the board,
    /// so the call requires room for two more.
    pub fn place_pieces(
        &mut self,
        direction: BoardDirection,
        top_piece: PieceWithFacing,
        bottom_piece: Piece,
    )
        requires
            old(self).placed(direction).len() + 2 <= 8,
        ensures
            final(self).placed(direction) == old(self).placed(direction).push(top_piece).push(
                PieceWithFacing::FaceUp(bottom_piece),
            ),
            forall|d: BoardDirection|
                d != direction ==> #[trigger] final(self).placed(d) == old(self).placed(d),
    {
        match direction {
            BoardDirection::North => {
                self.north.push(top_piece);
                self.north.push(PieceWithFacing::FaceUp(bottom_piece));
            },
            BoardDirection::East => {
                self.east.push(top_piece);
                self.east.push(PieceWithFacing::FaceUp(bottom_piece));
            },
            BoardDirection::South => {
                self.south.push(top_piece);
                self.south.push(PieceWithFacing::FaceUp(bottom_piece));
            },
            BoardDirection::West => {
                self.west.push(top_piece);
                self.west.push(PieceWithFacing::FaceUp(bottom_piece));
            },
        }
    }
}

impl Default for Board {
    /// An empty board, as [`Board::new`].
    fn default() -> (b: Self)
        ensures
            forall|d: BoardDirection| #[trigger] b.placed(d) == Seq::<PieceWithFacing>::empty(),
    {
        Board::new()
    }
}

} // verus!

verus! {

/// Four steps clockwise lead back to the same seat, and each step moves to
/// the next seat number modulo four.
pub proof fn lemma_next_cycles(d: BoardDirection)
    ensures
        dir_next(dir_next(dir_next(dir_next(d)))) == d,
        dir_index(dir_next(d)) == (dir_index(d) + 1) % 4,
        dir_next(d) != d,
{
}

/// Converting a seat to its number and back gives the same seat, and every
/// number names the seat of its remainder modulo four.
pub proof fn lemma_seat_number_round_trip(d: BoardDirection, n: int)
    requires
        0 <= n,
    ensures
        dir_at(dir_index(d)) == d,
        0 <= dir_index(d) < 4,
        dir_index(dir_at(n)) == n % 4,
{
}

/// Partners sit opposite each other: a seat and the seat two steps on are on
/// the same team, and neighbours are on different teams.
pub proof fn lemma_partners_sit_opposite(d: BoardDirection)
    ensures
        team_of(dir_next(dir_next(d))) == team_of(d),
        team_of(dir_next(d)) != team_of(d),
{
}

} // verus!
