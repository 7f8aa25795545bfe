//! Core rules and game flow for Goita, the four-player piece game from the
//! Noto Peninsula: pieces, hands, the board, dealing, turn order, placement
//! rules, round scoring and match scoring.

pub mod board;
pub mod deal;
pub mod game;
pub mod hand;
pub mod notation;
pub mod piece;
mod random;
pub mod round;
pub mod simulator;
pub mod types;

pub use board::{Board, BoardDirection, PieceWithFacing, PlayerAction, Team};
pub use hand::Hand;
pub use game::GoitaGame;
pub use round::GoitaRound;
pub use notation::{convert_piece_to_str, convert_str_to_piece};
pub use piece::{Piece, DEFAULT_PIECES};
pub use types::{
    ApplyResult, DealEvent, Error, GameResult, GoitaRule, HandRank, InvalidPlaceError, RoundResult,
};
