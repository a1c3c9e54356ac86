//! A chess rules engine: positions, pseudo-legal and legal move generation
//! (castling, en passant and promotion included), check and checkmate
//! detection, static evaluation, and depth-limited minimax search with
//! alpha-beta pruning.

pub mod piece;
pub mod board;
pub mod movegen;
pub mod legality;
pub mod agreement;
pub mod promotion;
pub mod eval;
pub mod search;

pub use piece::{Piece, PieceColor, PieceType};
pub use board::{Board, Move, inbounds, new_game, to_coord, to_offset};
pub use movegen::moves_for_piece;
pub use legality::{is_in_check, is_in_checkmate, is_move_legal, legal_destinations};
pub use search::{minimax, search, worst_eval};
