//! A chess rules engine: board positions, pseudo-legal and legal move
//! generation, check detection, move application and FEN decoding.

pub mod agreement;
pub mod board;
pub mod distinct;
pub mod fen;
pub mod laws;
pub mod listing;
pub mod movegen;
pub mod moves;
pub mod piece;
pub mod player;
pub mod position;
pub mod rules;
pub mod seqs;
pub mod state;

pub use board::{Board, Square};
pub use fen::{lex_fen_fields, lex_fen_str, split_fields, FENParserError, FENToken};
pub use movegen::{get_moves, get_moves_for_square, prune_moves_into_check};
pub use moves::{Move, PawnMoveInfo};
pub use piece::{Piece, PieceColor, PieceKind};
pub use player::Player;
pub use position::Position;
pub use state::{CastleSide, GameState, GameStateView};
